use dbt_trace::normalize::maybe_normalize_schema_name;
use dbt_trace::normalize::maybe_normalize_slashes;
use dbt_trace::normalize::maybe_normalize_time;
use dbt_trace::normalize::maybe_normalize_tmp_paths;
use dbt_trace::normalize::normalize_inline_sql_files;
use dbt_trace::normalize::normalize_replay_paths;
use dbt_trace::normalize::normalize_thread_ids;
use dbt_trace::normalize::normalize_version;
use dbt_trace::platform::Platform;

#[test]
fn test_maybe_normalize_schema_name() {
    let actual = maybe_normalize_schema_name("fusion_tests_schema__alex.dbt_something".to_string());
    assert_eq!(actual, "fusion_tests_schema__replaced.dbt_something");
}

#[test]
fn schema_name_is_matched_in_any_case() {
    let actual = maybe_normalize_schema_name("FUSION_Tests_schema__Bob9.t, 44.65s".to_string());
    assert_eq!(actual, "fusion_tests_schema__replaced.t, 44.65s");
}

#[test]
fn schema_timestamp_suffix_is_dropped() {
    let actual = maybe_normalize_schema_name("other___1747___ schema".to_string());
    assert_eq!(actual, "other schema");
}

#[test]
fn posix_temporary_roots() {
    let text = "/private/var/folders/ab/cd/T/.tmpAbC1/x and /var/folders/a/b/T/y".to_string();
    assert_eq!(
        maybe_normalize_tmp_paths(text, Platform::Posix),
        "/tmp/.tmpXXXXXX/x and /tmp/y"
    );
}

#[test]
fn windows_temporary_roots() {
    let text = r"C:\Users\me\AppData\Local\Temp\.tmpabc d:\windows\temp\y E:\Temp\z".to_string();
    assert_eq!(
        maybe_normalize_tmp_paths(text, Platform::Windows),
        "/tmp/.tmpXXXXXX /tmp/y /tmp/z"
    );
}

#[test]
fn windows_temporary_roots_with_escaped_separators() {
    let text = r"C:\\Users\\me\\AppData\\Local\\Temp\\x".to_string();
    assert_eq!(maybe_normalize_tmp_paths(text, Platform::Windows), "/tmp/x");
}

#[test]
fn windows_roots_stay_on_posix() {
    let text = r"E:\Temp\z".to_string();
    assert_eq!(maybe_normalize_tmp_paths(text, Platform::Posix), r"E:\Temp\z");
}

#[test]
fn slashes_on_windows() {
    let a = maybe_normalize_slashes(r"a\b/c".to_string(), Platform::Windows);
    let b = maybe_normalize_slashes(r"a/b\c".to_string(), Platform::Windows);
    assert_eq!(a, "a|b|c");
    assert_eq!(a, b);
    assert_eq!(maybe_normalize_slashes(a.clone(), Platform::Windows), a);
}

#[test]
fn slashes_elsewhere() {
    assert_eq!(maybe_normalize_slashes(r"a\b/c".to_string(), Platform::Posix), r"a\b/c");
}

#[test]
fn iso_timestamps() {
    assert_eq!(
        maybe_normalize_time("at 2025-05-27T22:38:47.667Z, 2017-09-01T00:00:00Z".to_string()),
        "at YYYY-MM-DDTHH:MM:SS.sssZ, YYYY-MM-DDTHH:MM:SS.sssZ"
    );
}

#[test]
fn times_of_day() {
    assert_eq!(maybe_normalize_time("15:39:21 go".to_string()), "HH:MM:SS go");
}

#[test]
fn durations_behind_in() {
    assert_eq!(maybe_normalize_time("done in 1s 298ms.".to_string()), "done in duration.");
}

#[test]
fn durations_since_an_update() {
    assert_eq!(
        maybe_normalize_time("Last updated 2m 10s ago".to_string()),
        "Last updated Xs ago"
    );
}

#[test]
fn bracketed_durations() {
    for text in ["[ 44.65s]", "[  1.5s ]", "[ 2m42s]", "[1h 2m3s]", "[1000ns ]", "[-------]"] {
        assert_eq!(maybe_normalize_time(text.to_string()), "[duration]", "{text}");
    }
}

#[test]
fn other_durations() {
    assert_eq!(
        maybe_normalize_time("took 4s 703ms 195us 939ns, 12μs".to_string()),
        "took duration, duration"
    );
}

#[test]
fn ages() {
    assert_eq!(maybe_normalize_time("age: 244165330".to_string()), "age: NORMALIZED");
}

#[test]
fn versions_behind_each_brand() {
    assert_eq!(
        normalize_version(
            "dbt-fusion 2.0.0 dbt-core 2.0.0 dbt-repl 2.0.0 other 2.0.0".to_string(),
            "2.0.0"
        ),
        "dbt-fusion  dbt-core  dbt-repl  other 2.0.0"
    );
}

#[test]
fn inline_query_files() {
    assert_eq!(
        normalize_inline_sql_files("inline_a1b2c3d4.sql inline_xyz.sql".to_string()),
        "inline_#randhash#.sql inline_xyz.sql"
    );
}

#[test]
fn thread_numbers_in_panics() {
    assert_eq!(
        normalize_thread_ids("thread 'tokio-rt-worker' (12345678) panicked at x".to_string()),
        "thread 'tokio-rt-worker' panicked at x"
    );
}

#[test]
fn replay_paths() {
    assert_eq!(
        normalize_replay_paths("no recording (path: /abs/path/to/recordings)".to_string()),
        "no recording (path: <path>)"
    );
}
