//! Normalizers: they replace what differs from run to run in the output of a command, so that
//! the output can be compared with a recorded one.

use crate::outside::regex_replace_all;
use crate::outside::regex_replaced;
use crate::patterns::AGE_PATTERN;
use crate::patterns::BRACKETED_DURATION_PATTERN;
use crate::patterns::INLINE_SQL_PATTERN;
use crate::patterns::IN_DURATION_PATTERN;
use crate::patterns::ISO_TIMESTAMP_PATTERN;
use crate::patterns::LAST_UPDATED_DURATION_PATTERN;
use crate::patterns::MKTEMP_PATTERN;
use crate::patterns::MULTI_UNIT_DURATION_PATTERN;
use crate::patterns::REPLAY_PATH_PATTERN;
use crate::patterns::SCHEMA_PATTERN;
use crate::patterns::SCHEMA_TIMESTAMP_SUFFIX_PATTERN;
use crate::patterns::TEMP_ROOT_PATTERN;
use crate::patterns::THREAD_ID_PATTERN;
use crate::patterns::TIME_PATTERN;
use crate::patterns::WINDOWS_TEMP_ROOT_PATTERN;
use crate::patterns::WINDOWS_TEMP_ROOT_PATTERN_ESCAPED;
use crate::platform::Platform;
use crate::text::concat;
use crate::text::replace;
use crate::text::replaced;
use vstd::prelude::*;

verus! {

/// `text` with the temporary roots of the platform and the `mktemp` segments replaced.
pub open spec fn tmp_paths_normalized(text: Seq<char>, platform: Platform) -> Seq<char> {
    let rooted = match platform {
        Platform::Windows => regex_replaced(
            WINDOWS_TEMP_ROOT_PATTERN@,
            regex_replaced(WINDOWS_TEMP_ROOT_PATTERN_ESCAPED@, text, "/tmp/"@),
            "/tmp/"@,
        ),
        Platform::Posix => regex_replaced(TEMP_ROOT_PATTERN@, text, "/tmp/"@),
    };
    regex_replaced(MKTEMP_PATTERN@, rooted, "/.tmpXXXXXX"@)
}

/// Normalizes the roots of temporary directories to `/tmp/`, then collapses segments that
/// `mktemp` made up, like `/.tmpabcdef`, to `/.tmpXXXXXX`.
pub fn maybe_normalize_tmp_paths(output: String, platform: Platform) -> (r: String)
    ensures
        r@ == tmp_paths_normalized(output@, platform),
{
    let rooted: String = match platform {
        Platform::Windows => {
            let unescaped: String = regex_replace_all(
                WINDOWS_TEMP_ROOT_PATTERN_ESCAPED,
                output.as_str(),
                "/tmp/",
            );
            regex_replace_all(WINDOWS_TEMP_ROOT_PATTERN, unescaped.as_str(), "/tmp/")
        },
        Platform::Posix => regex_replace_all(TEMP_ROOT_PATTERN, output.as_str(), "/tmp/"),
    };
    regex_replace_all(MKTEMP_PATTERN, rooted.as_str(), "/.tmpXXXXXX")
}

/// Whether a character separates the segments of a path on some platform.
pub open spec fn is_slash(c: char) -> bool {
    c == '/' || c == '\\'
}

/// `text` with `|` for each slash on Windows, and `text` itself elsewhere.
pub open spec fn slashes_normalized(text: Seq<char>, platform: Platform) -> Seq<char> {
    match platform {
        Platform::Posix => text,
        Platform::Windows => text.map_values(
            |c: char|
                if is_slash(c) {
                    '|'
                } else {
                    c
                },
        ),
    }
}

/// On Windows, two texts that differ only in the direction of slashes become the same text.
/// Normalizing a text once more changes nothing.
pub proof fn law_slash_direction_is_ignored(a: Seq<char>, b: Seq<char>, platform: Platform)
    requires
        a.len() == b.len(),
        forall|i: int|
            0 <= i < a.len() ==> #[trigger] a[i] == b[i] || (is_slash(a[i]) && is_slash(b[i])),
    ensures
        platform == Platform::Windows ==> slashes_normalized(a, platform) == slashes_normalized(
            b,
            platform,
        ),
        slashes_normalized(slashes_normalized(a, platform), platform) == slashes_normalized(
            a,
            platform,
        ),
{
    if platform == Platform::Windows {
        assert(slashes_normalized(a, platform) =~= slashes_normalized(b, platform));
    }
    assert(slashes_normalized(slashes_normalized(a, platform), platform) =~= slashes_normalized(
        a,
        platform,
    ));
}

/// On Windows, replaces forward and backward slashes by `|`, so as to ignore the difference in
/// path separators. On other platforms, the output stays as it is.
pub fn maybe_normalize_slashes(output: String, platform: Platform) -> (r: String)
    ensures
        r@ == slashes_normalized(output@, platform),
{
    match platform {
        Platform::Windows => {
            proof {
                reveal_strlit("\\");
                reveal_strlit("/");
                reveal_strlit("|");
                assert("\\"@ =~= seq!['\\']);
                assert("/"@ =~= seq!['/']);
                assert("|"@ =~= seq!['|']);
            }
            let unified: String = replace(output.as_str(), "\\", "|");
            proof {
                lemma_replaced_char(output@, '\\', '|', 0);
                lemma_replaced_char(unified@, '/', '|', 0);
            }
            let r: String = replace(unified.as_str(), "/", "|");
            assert(output@.subrange(0, output@.len() as int) =~= output@);
            assert(unified@.subrange(0, unified@.len() as int) =~= unified@);
            assert(r@ =~= slashes_normalized(output@, platform));
            r
        },
        Platform::Posix => output,
    }
}

/// Replacing one character by one character replaces it position by position.
proof fn lemma_replaced_char(s: Seq<char>, from: char, to: char, i: int)
    requires
        0 <= i <= s.len(),
    ensures
        replaced(s, seq![from], seq![to], i) == s.subrange(i, s.len() as int).map_values(
            |c: char|
                if c == from {
                    to
                } else {
                    c
                },
        ),
    decreases s.len() - i,
{
    let f = |c: char|
        if c == from {
            to
        } else {
            c
        };
    let n = s.len() as int;
    crate::text::lemma_find(s, seq![from], i);
    match crate::text::find(s, seq![from], i) {
        Some(k) => {
            lemma_replaced_char(s, from, to, k + 1);
            assert(s.subrange(k, k + 1)[0] == from);
            assert forall|j: int| i <= j < k implies s[j] != from by {
                assert(s.subrange(j, j + 1) != seq![from]);
                assert(s.subrange(j, j + 1) =~= seq![s[j]]);
            }
            assert(replaced(s, seq![from], seq![to], i) =~= s.subrange(i, n).map_values(f));
        },
        None => {
            assert forall|j: int| i <= j < n implies s[j] != from by {
                assert(s.subrange(j, j + 1) != seq![from]);
                assert(s.subrange(j, j + 1) =~= seq![s[j]]);
            }
            assert(replaced(s, seq![from], seq![to], i) =~= s.subrange(i, n).map_values(f));
        },
    }
}

/// Replaces the name of a test schema, like `fusion_tests_schema__alex`, by
/// `fusion_tests_schema__replaced`, then drops the suffixes `___<timestamp>___`.
pub fn maybe_normalize_schema_name(output: String) -> (r: String)
    ensures
        r@ == regex_replaced(
            SCHEMA_TIMESTAMP_SUFFIX_PATTERN@,
            regex_replaced(SCHEMA_PATTERN@, output@, "fusion_tests_schema__replaced"@),
            ""@,
        ),
{
    let replaced: String = regex_replace_all(
        SCHEMA_PATTERN,
        output.as_str(),
        "fusion_tests_schema__replaced",
    );
    regex_replace_all(SCHEMA_TIMESTAMP_SUFFIX_PATTERN, replaced.as_str(), "")
}

/// `text` with times, durations and ages replaced, each kind after the one before it.
pub open spec fn time_normalized(text: Seq<char>) -> Seq<char> {
    let t1 = regex_replaced(ISO_TIMESTAMP_PATTERN@, text, "YYYY-MM-DDTHH:MM:SS.sssZ"@);
    let t2 = regex_replaced(TIME_PATTERN@, t1, "HH:MM:SS"@);
    let t3 = regex_replaced(IN_DURATION_PATTERN@, t2, "in duration"@);
    let t4 = regex_replaced(LAST_UPDATED_DURATION_PATTERN@, t3, "Last updated Xs ago"@);
    let t5 = regex_replaced(BRACKETED_DURATION_PATTERN@, t4, "[duration]"@);
    let t6 = regex_replaced(MULTI_UNIT_DURATION_PATTERN@, t5, "duration"@);
    regex_replaced(AGE_PATTERN@, t6, "age: NORMALIZED"@)
}

/// Replaces ISO 8601 timestamps, times of day, phrases `in <duration>`, phrases
/// `Last updated <duration> ago`, bracketed durations, other durations and ages, in this order.
pub fn maybe_normalize_time(output: String) -> (r: String)
    ensures
        r@ == time_normalized(output@),
{
    let t1: String = regex_replace_all(
        ISO_TIMESTAMP_PATTERN,
        output.as_str(),
        "YYYY-MM-DDTHH:MM:SS.sssZ",
    );
    let t2: String = regex_replace_all(TIME_PATTERN, t1.as_str(), "HH:MM:SS");
    let t3: String = regex_replace_all(IN_DURATION_PATTERN, t2.as_str(), "in duration");
    let t4: String = regex_replace_all(
        LAST_UPDATED_DURATION_PATTERN,
        t3.as_str(),
        "Last updated Xs ago",
    );
    let t5: String = regex_replace_all(BRACKETED_DURATION_PATTERN, t4.as_str(), "[duration]");
    let t6: String = regex_replace_all(MULTI_UNIT_DURATION_PATTERN, t5.as_str(), "duration");
    regex_replace_all(AGE_PATTERN, t6.as_str(), "age: NORMALIZED")
}

/// `text` without the version behind one brand name.
pub open spec fn version_dropped(text: Seq<char>, brand: Seq<char>, version: Seq<char>) -> Seq<char> {
    replaced(text, brand + " "@ + version, brand + " "@, 0)
}

/// Drops `version` behind `brand`.
fn drop_version(text: &str, brand: &str, version: &str) -> (r: String)
    ensures
        r@ == version_dropped(text@, brand@, version@),
{
    let named: String = concat(brand, " ");
    let banner: String = concat(named.as_str(), version);
    proof {
        reveal_strlit(" ");
    }
    replace(text, banner.as_str(), named.as_str())
}

/// Drops the version number of the startup banner, whose brand name is `dbt-fusion`,
/// `dbt-core` or `dbt-repl`.
pub fn normalize_version(output: String, version: &str) -> (r: String)
    ensures
        r@ == version_dropped(
            version_dropped(
                version_dropped(output@, "dbt-fusion"@, version@),
                "dbt-core"@,
                version@,
            ),
            "dbt-repl"@,
            version@,
        ),
{
    let a: String = drop_version(output.as_str(), "dbt-fusion", version);
    let b: String = drop_version(a.as_str(), "dbt-core", version);
    drop_version(b.as_str(), "dbt-repl", version)
}

/// Replaces the names of inline query files, like `inline_a1b2c3d4.sql`, by
/// `inline_#randhash#.sql`.
pub fn normalize_inline_sql_files(output: String) -> (r: String)
    ensures
        r@ == regex_replaced(INLINE_SQL_PATTERN@, output@, "inline_#randhash#.sql"@),
{
    regex_replace_all(INLINE_SQL_PATTERN, output.as_str(), "inline_#randhash#.sql")
}

/// Drops the number of the thread from the line of a panic: `thread 'name' (123) panicked`
/// becomes `thread 'name' panicked`.
pub fn normalize_thread_ids(output: String) -> (r: String)
    ensures
        r@ == regex_replaced(THREAD_ID_PATTERN@, output@, "$1 $2"@),
{
    regex_replace_all(THREAD_ID_PATTERN, output.as_str(), "$1 $2")
}

/// Replaces absolute paths of replay recordings: `(path: /abs/path)` becomes `(path: <path>)`.
pub fn normalize_replay_paths(output: String) -> (r: String)
    ensures
        r@ == regex_replaced(REPLAY_PATH_PATTERN@, output@, "(path: <path>)"@),
{
    regex_replace_all(REPLAY_PATH_PATTERN, output.as_str(), "(path: <path>)")
}

} // verus!
