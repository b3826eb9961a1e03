use dbt_trace::error::ErrorCode;
use dbt_trace::file_walk::FileWalk;
use dbt_trace::file_walk::WalkAction;
use dbt_trace::file_walk::WalkEvent;
use dbt_trace::path::FsPath;
use dbt_trace::platform::Platform;
use dbt_trace::task_run::task_environment;
use dbt_trace::task_run::test_cloud_config_dir;
use dbt_trace::task_run::TaskOutcome;
use dbt_trace::task_run::TaskRun;
use dbt_trace::task_seq::fs_cmd_from_parts;
use dbt_trace::task_seq::fs_cmd_vec;
use dbt_trace::task_seq::TaskKind;
use dbt_trace::task_seq::TaskSeq;
use dbt_trace::text::after_last;
use dbt_trace::text::contains;
use dbt_trace::text::decimal_text;
use dbt_trace::text::replace;
use dbt_trace::text::same_text;
use dbt_trace::utils::assert_str_in_log_messages;
use dbt_trace::utils::assert_vec_sorted_eq;
use dbt_trace::utils::check_set_user_env_var;
use dbt_trace::utils::copy_step;
use dbt_trace::utils::missing_log_message;
use dbt_trace::utils::str_in_log_messages;
use dbt_trace::utils::strip_full_test_name;
use dbt_trace::utils::vec_sorted_eq;
use dbt_trace::utils::CopyStep;
use dbt_trace::utils::JsonLogEvent;

fn text(p: &FsPath) -> String {
    String::from_utf8(p.as_bytes().to_vec()).unwrap()
}

type Tasks = TaskSeq<&'static str, u8>;

#[test]
fn names_and_paths_of_tests() {
    let tasks = Tasks::new("crate::module::test".to_string());
    assert_eq!(tasks.name(), "test");
    assert_eq!(text(&tasks.unique_path()), "crate/module/test");
    let tasks = Tasks::new("test".to_string());
    assert_eq!(tasks.name(), "test");
    assert_eq!(text(&tasks.unique_path()), "test");
}

#[test]
fn different_names_have_different_paths() {
    let names = ["a::b", "a:b", "a:::b", "a::::b", "ab", "a::b::c", "a::bc", "", "::"];
    for x in names {
        for y in names {
            let a = Tasks::new(x.to_string()).unique_path();
            let b = Tasks::new(y.to_string()).unique_path();
            assert_eq!(text(&a) == text(&b), x == y, "{x} {y}");
        }
    }
}

#[test]
fn the_components_of_a_path_are_the_parts_of_the_name() {
    let tasks = Tasks::new("krate::m\u{f6}d::t_1".to_string());
    let path = text(&tasks.unique_path());
    let components: Vec<&str> = std::path::Path::new(&path).iter().map(|c| c.to_str().unwrap()).collect();
    assert_eq!(components, ["krate", "m\u{f6}d", "t_1"]);
    assert_eq!(components.last(), Some(&tasks.name()));
}

#[test]
fn the_path_of_a_test_does_not_depend_on_its_tasks() {
    let mut tasks = Tasks::new("c::m::t".to_string());
    tasks.touch("a".to_string()).task_fn(1);
    assert_eq!(text(&tasks.unique_path()), "c/m/t");
}

#[test]
fn the_last_part_of_a_name() {
    assert_eq!(strip_full_test_name("a::b"), "b");
    assert_eq!(strip_full_test_name("a::"), "");
    assert_eq!(strip_full_test_name(""), "");
    assert_eq!(strip_full_test_name("a:::b"), ":b");
}

#[test]
fn tasks_are_kept_in_order() {
    let mut tasks = Tasks::new("m::t".to_string());
    tasks
        .task(TaskKind::Custom("custom"))
        .task_fn(7)
        .sh(&["echo", "hi"])
        .touch("a".to_string())
        .write_file("f".to_string(), "content".to_string())
        .rm_file("r".to_string());
    let kinds = tasks.tasks();
    assert_eq!(kinds.len(), 6);
    assert!(matches!(kinds[0], TaskKind::Custom("custom")));
    assert!(matches!(kinds[1], TaskKind::Function(7)));
    match &kinds[2] {
        TaskKind::Sh { name, cmd } => {
            assert_eq!(name, "t");
            assert_eq!(*cmd, ["echo", "hi"]);
        }
        other => panic!("{other:?}"),
    }
    assert!(matches!(&kinds[3], TaskKind::Touch { path } if path == "a"));
    assert!(
        matches!(&kinds[4], TaskKind::WriteFile { file_path, content } if file_path == "f" && content == "content")
    );
    assert!(matches!(&kinds[5], TaskKind::RmFile { path } if path == "r"));
}

fn parts(s: &str) -> Vec<String> {
    s.split_whitespace().map(|p| p.to_string()).collect()
}

#[test]
fn commands_show_their_progress() {
    assert_eq!(fs_cmd_vec("compile -s x", parts), ["fs", "compile", "-s", "x", "--show", "progress"]);
    assert_eq!(fs_cmd_from_parts(vec![]), ["fs", "--show", "progress"]);
}

#[test]
fn commands_that_say_what_to_show() {
    assert_eq!(fs_cmd_vec("run --show all", parts), ["fs", "run", "--show", "all"]);
    assert_eq!(fs_cmd_vec("run --shown", parts), ["fs", "run", "--shown", "--show", "progress"]);
}

#[test]
fn only_tasks_that_count_are_numbered() {
    let run = TaskRun::start(3);
    let run = run.advance::<()>(TaskOutcome::Passed, true).unwrap();
    assert_eq!(run.index, 1);
    let run = run.advance::<()>(TaskOutcome::Passed, false).unwrap();
    assert_eq!(run.index, 1);
    let run = run.advance::<()>(TaskOutcome::Passed, true).unwrap();
    assert_eq!((run.index, run.done), (2, 3));
    assert!(run.finish().is_none());
}

#[test]
fn mismatches_are_gathered_and_reported() {
    let mismatch = |p: &[&str]| {
        TaskOutcome::<()>::GoldieMismatch(p.iter().map(|s| s.to_string()).collect())
    };
    let run = TaskRun::start(3);
    let run = run.advance(mismatch(&["p1", "p2"]), true).unwrap();
    let run = run.advance::<()>(TaskOutcome::Passed, true).unwrap();
    let run = run.advance(mismatch(&["p3"]), false).unwrap();
    assert_eq!(
        run.finish().unwrap(),
        ["<<<<<<<< BEGIN PATCH", "p1", "p2", "p3", ">>>>>>>> END PATCH"]
    );
}

#[test]
fn another_failure_ends_the_run() {
    let run = TaskRun::start(2);
    assert_eq!(run.advance(TaskOutcome::Failed("broken"), true).unwrap_err(), "broken");
}

#[test]
fn the_query_cache_is_tested_on_demand() {
    let given = [("A", "1"), ("B", "2")];
    assert_eq!(task_environment(&given, None), given);
    assert_eq!(task_environment(&given, Some("0")), given);
    assert_eq!(
        task_environment(&given, Some("1")),
        [("A", "1"), ("B", "2"), ("DBT_TEST_QUERY_CACHE", "1")]
    );
}

#[test]
fn the_directory_without_cloud_credentials() {
    let dir = test_cloud_config_dir(&FsPath::from_text("/tmp"), 4711, Platform::Posix);
    assert_eq!(text(&dir), "/tmp/dbt-test-no-cloud-config-4711");
}

#[test]
fn the_user_of_a_run() {
    assert_eq!(check_set_user_env_var(true, Some("9"), Some("8")), None);
    assert_eq!(check_set_user_env_var(false, None, None).as_deref(), Some("0000000x0"));
    assert_eq!(check_set_user_env_var(false, Some("9"), None).as_deref(), Some("9x0"));
    assert_eq!(check_set_user_env_var(false, Some("9"), Some("8")).as_deref(), Some("9x8"));
}

#[test]
fn messages_in_a_log() {
    let logs = [
        JsonLogEvent { msg: None },
        JsonLogEvent { msg: Some("Nothing to do".to_string()) },
    ];
    assert!(str_in_log_messages(&logs, "to do"));
    assert!(assert_str_in_log_messages(&logs, "Nothing").is_ok());
    assert!(!str_in_log_messages(&logs, "nothing"));
    assert!(str_in_log_messages(&logs[..1], ""));
    assert!(!str_in_log_messages(&[], ""));
    assert_eq!(missing_log_message("x"), "Log message containing 'x' not found");
}

#[test]
fn vectors_up_to_order() {
    assert!(assert_vec_sorted_eq(vec![3u32, 1, 2, 1], vec![1, 1, 2, 3]));
    assert!(!vec_sorted_eq(&vec![1u32, 1, 2], &vec![1, 2, 2]));
    assert!(!vec_sorted_eq(&vec![1u32], &vec![1, 1]));
    assert!(vec_sorted_eq::<u32>(&vec![], &vec![]));
    let texts = |s: &str| parts(s);
    assert!(vec_sorted_eq(&texts("b a"), &texts("a b")));
    assert!(!vec_sorted_eq(&texts("b a"), &texts("a a")));
}

#[test]
fn entries_of_a_copied_directory() {
    let src = FsPath::from_text("/src");
    let dst = FsPath::from_text("/dst");
    let entry = FsPath::from_text("/src/a/f.sql");
    match copy_step(&src, &dst, "/src", Some(&entry), false, Platform::Posix).unwrap() {
        CopyStep::CopyFile { from, to } => {
            assert_eq!((text(&from), text(&to)), ("/src/a/f.sql".into(), "/dst/a/f.sql".into()));
        }
        other => panic!("{other:?}"),
    }
    let entry = FsPath::from_text("/src/a");
    match copy_step(&src, &dst, "/src", Some(&entry), true, Platform::Posix).unwrap() {
        CopyStep::CreateDir { dir } => assert_eq!(text(&dir), "/dst/a"),
        other => panic!("{other:?}"),
    }
    match copy_step(&src, &dst, "/src", Some(&src), true, Platform::Posix).unwrap() {
        CopyStep::CreateDir { dir } => assert_eq!(text(&dir), "/dst/"),
        other => panic!("{other:?}"),
    }
}

#[test]
fn an_entry_that_cannot_be_read_ends_the_copy() {
    let (s, d) = (FsPath::from_text("s"), FsPath::from_text("d"));
    let error = copy_step(&s, &d, "s", None, false, Platform::Posix).unwrap_err();
    assert_eq!(error.code, ErrorCode::Unexpected);
    assert_eq!(error.message, "Failed to read entry in directory: s");
}

#[test]
fn a_walk_hands_out_files_in_order() {
    let entry = |path: &str, is_dir: bool| WalkEvent::Entry { path: FsPath::from_text(path), is_dir };
    let mut walk = FileWalk::start(FsPath::from_text("r"));
    let events = [
        entry("r/a", false),
        entry("r/d", true),
        entry("r/d/b", false),
        WalkEvent::End,
        entry("r/c", false),
        WalkEvent::End,
    ];
    let mut log: Vec<String> = Vec::new();
    for event in events {
        assert!(!walk.is_over());
        log.push(match walk.advance(event) {
            WalkAction::Open { dir } => format!("open {}", text(&dir)),
            WalkAction::Handle { file } => format!("handle {}", text(&file)),
            WalkAction::Close => "close".to_string(),
        });
    }
    assert!(walk.is_over());
    assert_eq!(log, ["handle r/a", "open r/d", "handle r/d/b", "close", "handle r/c", "close"]);
}

#[test]
fn searching_and_replacing() {
    let samples = ["", "a", "aa", "aaa", "abab", "xaby", "\u{e4}b\u{e4}"];
    for s in samples {
        for pat in ["a", "aa", "ab", "\u{e4}", "abc"] {
            assert_eq!(contains(s, pat), s.contains(pat));
            assert_eq!(replace(s, pat, "<>"), s.replace(pat, "<>"));
            assert_eq!(after_last(s, pat), s.split(pat).last().unwrap());
            assert_eq!(same_text(s, pat), s == pat);
        }
        assert!(contains(s, ""));
    }
}

#[test]
fn decimal_numerals() {
    for n in [0u32, 7, 10, 4711, u32::MAX] {
        assert_eq!(decimal_text(n), n.to_string());
    }
}
