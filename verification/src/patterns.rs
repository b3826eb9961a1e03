//! The patterns that the output normalizers look for, in the syntax of the `regex` crate.

use vstd::prelude::*;

verus! {

/// A test schema and whatever follows its prefix.
pub const SCHEMA_PATTERN: &'static str = r"(?i)fusion_tests_schema__[a-zA-Z0-9_]*";

/// The `___<timestamp>___` suffix that isolates the schema of one test.
pub const SCHEMA_TIMESTAMP_SUFFIX_PATTERN: &'static str = r"___\d+___";

/// An ISO 8601 time in UTC.
pub const ISO_TIMESTAMP_PATTERN: &'static str =
    r"\d{4}-\d{2}-\d{2}T\d{2}:\d{2}:\d{2}(?:\.\d+)?Z";

/// A time of day.
pub const TIME_PATTERN: &'static str = r"\b\d{2}:\d{2}:\d{2}\b";

/// A duration in brackets of fixed width: `[  1.5s ]`, `[ 2m42s]`, `[-------]`.
pub const BRACKETED_DURATION_PATTERN: &'static str =
    r"\[\s*(?:\d+h(?:\s*\d+m(?:\s*\d+s)?)?|\d+m(?:\s*\d+s)?|\d+(?:\.\d+)?(?:ns|us|μs|ms|s)|-------)\s*\]";

/// A phrase `in <duration>`.
pub const IN_DURATION_PATTERN: &'static str =
    r"\bin\s+\d+(?:\.\d+)?(?:ns|us|μs|ms|s|m|h)(?:\s+\d+(?:\.\d+)?(?:ns|us|μs|ms|s|m|h))*\b";

/// A phrase `Last updated <duration> ago`.
pub const LAST_UPDATED_DURATION_PATTERN: &'static str =
    r"\bLast updated\s+\d+(?:\.\d+)?(?:ns|us|μs|ms|s|m|h)(?:\s+\d+(?:\.\d+)?(?:ns|us|μs|ms|s|m|h))* ago\b";

/// One or more durations in a row.
pub const MULTI_UNIT_DURATION_PATTERN: &'static str =
    r"\b\d+(?:\.\d+)?(?:ns|us|μs|ms|s|m|h)(?:\s+\d+(?:\.\d+)?(?:ns|us|μs|ms|s|m|h))*\b";

/// An age in seconds.
pub const AGE_PATTERN: &'static str = r"\bage:\s*\d+";

/// The file of an inline query.
pub const INLINE_SQL_PATTERN: &'static str = r"inline_[a-f0-9]{8}\.sql";

/// The root of the temporary directories of a user on macOS.
pub const TEMP_ROOT_PATTERN: &'static str = r"(?:/private)?/var/folders/[^/]+/[^/]+/T/";

/// The roots of the temporary directories on Windows.
pub const WINDOWS_TEMP_ROOT_PATTERN: &'static str =
    r"(?i)[A-Z]:\\Users\\[^\\]+\\AppData\\Local\\Temp\\|[A-Z]:\\Windows\\Temp\\|[A-Z]:\\Temp\\";

/// The roots of the temporary directories on Windows, with escaped separators.
pub const WINDOWS_TEMP_ROOT_PATTERN_ESCAPED: &'static str =
    r"(?i)[A-Z]:\\\\Users\\\\[^\\\\]+\\\\AppData\\\\Local\\\\Temp\\\\|[A-Z]:\\\\Windows\\\\Temp\\\\|[A-Z]:\\\\Temp\\\\";

/// A segment that `mktemp` made up.
pub const MKTEMP_PATTERN: &'static str = r"/\.tmp[0-9A-Za-z_-]+";

/// The line of a panic with the number of its thread.
pub const THREAD_ID_PATTERN: &'static str = r"(thread '[^']+') \(\d+\) (panicked)";

/// The absolute path of a replay recording.
pub const REPLAY_PATH_PATTERN: &'static str = r"\(path: [^)]+\)";

/// Whether a text is one of the patterns of this module. Each of them compiles.
pub open spec fn is_pattern(p: Seq<char>) -> bool {
    ||| p == SCHEMA_PATTERN@
    ||| p == SCHEMA_TIMESTAMP_SUFFIX_PATTERN@
    ||| p == ISO_TIMESTAMP_PATTERN@
    ||| p == TIME_PATTERN@
    ||| p == BRACKETED_DURATION_PATTERN@
    ||| p == IN_DURATION_PATTERN@
    ||| p == LAST_UPDATED_DURATION_PATTERN@
    ||| p == MULTI_UNIT_DURATION_PATTERN@
    ||| p == AGE_PATTERN@
    ||| p == INLINE_SQL_PATTERN@
    ||| p == TEMP_ROOT_PATTERN@
    ||| p == WINDOWS_TEMP_ROOT_PATTERN@
    ||| p == WINDOWS_TEMP_ROOT_PATTERN_ESCAPED@
    ||| p == MKTEMP_PATTERN@
    ||| p == THREAD_ID_PATTERN@
    ||| p == REPLAY_PATH_PATTERN@
}

} // verus!
