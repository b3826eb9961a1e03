use dbt_trace::path::Dots;
use dbt_trace::path::FsPath;
use dbt_trace::platform::Platform;
use dbt_trace::utils::relative_to_git_root;
use dbt_trace::utils::strip_leading_relative;
use std::path::Component;
use std::path::Path;

const SAMPLES: [&str; 24] = [
    "", "/", "//", "a", "a/", "a//", "/a", "//a", "a/b", "a//b", "a/./b", "./a", "./", ".", "..",
    "../a", "/.", "/./a", "a/.", "a/..", "a/b/c", "/a/b/c/", "./../a", "a/.b",
];

fn text(p: &FsPath) -> String {
    String::from_utf8(p.as_bytes().to_vec()).unwrap()
}

#[test]
fn join_is_that_of_the_platform() {
    for a in SAMPLES {
        for b in SAMPLES {
            let joined = FsPath::from_text(a).join(&FsPath::from_text(b));
            assert_eq!(text(&joined), Path::new(a).join(b).to_str().unwrap(), "{a} {b}");
            assert_eq!(text(&FsPath::from_text(a).join_text(b)), text(&joined));
        }
    }
}

#[test]
fn parent_is_that_of_the_platform() {
    for a in SAMPLES {
        let parent = FsPath::from_text(a).parent(Dots::Skip);
        let expected = Path::new(a).parent().map(|p| p.to_str().unwrap().to_string());
        assert_eq!(parent.as_ref().map(text), expected, "{a}");
    }
}

#[test]
fn strip_prefix_is_that_of_the_platform() {
    for a in SAMPLES {
        for b in SAMPLES {
            let rest = FsPath::from_text(a).strip_prefix(&FsPath::from_text(b), Dots::Skip);
            let expected = Path::new(a).strip_prefix(b).ok().map(|p| p.to_str().unwrap().to_string());
            assert_eq!(rest.as_ref().map(text), expected, "{a} {b}");
        }
    }
}

#[test]
fn absolute_paths_are_those_of_the_platform() {
    for a in SAMPLES {
        assert_eq!(FsPath::from_text(a).is_absolute(), Path::new(a).is_absolute(), "{a}");
        assert_eq!(FsPath::from_text(a).is_relative(), Path::new(a).is_relative(), "{a}");
    }
}

#[test]
fn leading_dots_are_those_of_the_platform() {
    for a in SAMPLES {
        let mut components = Path::new(a).components();
        while let Some(Component::CurDir | Component::ParentDir) = components.clone().next() {
            components.next();
        }
        let expected = components.as_path().to_str().unwrap();
        assert_eq!(text(&strip_leading_relative(&FsPath::from_text(a), Platform::Posix)), expected, "{a}");
    }
}

#[test]
fn leading_dots_are_stripped() {
    assert_eq!(text(&strip_leading_relative(&FsPath::from_text("./../a/../b"), Platform::Posix)), "a/../b");
    assert_eq!(text(&strip_leading_relative(&FsPath::from_text("/../a"), Platform::Posix)), "/../a");
    assert_eq!(text(&strip_leading_relative(&FsPath::from_text("../.."), Platform::Posix)), "");
}

#[test]
fn a_prefix_and_its_rest_make_up_the_path() {
    for a in SAMPLES {
        for b in SAMPLES {
            if let Some(rest) = FsPath::from_text(a).strip_prefix(&FsPath::from_text(b), Dots::Skip) {
                let again = FsPath::from_text(b).join(&rest);
                let again = text(&again);
                assert!(Path::new(&again).components().eq(Path::new(a).components()), "{a} {b}");
            }
        }
    }
}

#[test]
fn the_nearest_git_root_is_taken() {
    let is_dir = |p: &FsPath| ["/r/.git", "/r/s/.git"].contains(&text(p).as_str());
    let found = relative_to_git_root(&FsPath::from_text("/r/s/t/f.sql"), Platform::Posix, is_dir);
    assert_eq!(found.as_ref().map(text), Some("t/f.sql".to_string()));
    let found = relative_to_git_root(&FsPath::from_text("/r/f.sql"), Platform::Posix, is_dir);
    assert_eq!(found.as_ref().map(text), Some("f.sql".to_string()));
}

#[test]
fn a_git_directory_of_the_path_itself_does_not_count() {
    let is_dir = |p: &FsPath| text(p) == "/r/.git";
    assert!(relative_to_git_root(&FsPath::from_text("/r"), Platform::Posix, is_dir).is_none());
}

#[test]
fn without_a_git_directory_there_is_no_root() {
    assert!(relative_to_git_root(&FsPath::from_text("/a/b"), Platform::Posix, |_: &FsPath| false).is_none());
    assert!(relative_to_git_root(&FsPath::from_text("/"), Platform::Posix, |_: &FsPath| true).is_none());
}

#[test]
fn posix_paths_have_no_prefix() {
    for a in SAMPLES {
        let p = FsPath::from_text_on(a, Platform::Posix);
        assert_eq!(p.parent_on(Platform::Posix).as_ref().map(text), p.parent(Dots::Skip).as_ref().map(text));
        assert_eq!(p.is_absolute_on(Platform::Posix), p.is_absolute());
        for b in SAMPLES {
            let q = FsPath::from_text(b);
            assert_eq!(text(&p.join_on(&q, Platform::Posix)), text(&p.join(&q)), "{a} {b}");
            assert_eq!(
                p.strip_prefix_on(&q, Platform::Posix).as_ref().map(text),
                p.strip_prefix(&q, Dots::Skip).as_ref().map(text),
                "{a} {b}"
            );
        }
    }
    assert_eq!(text(&FsPath::from_text_on(r"a\b", Platform::Posix)), r"a\b");
}

fn windows(s: &str) -> FsPath {
    FsPath::from_text_on(s, Platform::Windows)
}

#[test]
fn windows_paths_are_written_with_forward_slashes() {
    assert_eq!(text(&windows(r"C:\proj/logs")), "C:/proj/logs");
    assert_eq!(text(&FsPath::from_bytes_on(b"a\\b", Platform::Windows)), "a/b");
}

#[test]
fn absolute_paths_on_windows() {
    for (p, absolute) in [
        (r"C:\x", true),
        ("C:x", false),
        (r"\x", false),
        ("x", false),
        (r"\\server\share", true),
        (r"\\server\share\x", true),
        (r"\\server", false),
        (r"\\.\COM1", true),
        ("C:", false),
        ("1:/x", false),
    ] {
        assert_eq!(windows(p).is_absolute_on(Platform::Windows), absolute, "{p}");
    }
}

#[test]
fn joins_on_windows() {
    for (base, tail, expected) in [
        (r"D:\proj", r"C:\logs", "C:/logs"),
        (r"D:\proj", "C:logs", "C:logs"),
        (r"D:\proj", r"\logs", "D:/logs"),
        (r"D:\proj", "logs", "D:/proj/logs"),
        (r"D:\proj\", "logs", "D:/proj/logs"),
        ("D:", "logs", "D:logs"),
        (r"\\server\share", "logs", "//server/share/logs"),
        (r"\\server\share", "", "//server/share/"),
        (r"\\server\share\x", r"\logs", "//server/share/logs"),
        ("", "logs", "logs"),
        ("proj", r"a\b", "proj/a/b"),
    ] {
        assert_eq!(
            text(&windows(base).join_on(&windows(tail), Platform::Windows)),
            expected,
            "{base} {tail}"
        );
        assert_eq!(
            text(&windows(base).join_text_on(tail, Platform::Windows)),
            expected,
            "{base} {tail}"
        );
    }
}

#[test]
fn parents_on_windows() {
    for (p, parent) in [
        (r"C:\a\b", Some("C:/a")),
        (r"C:\a", Some("C:/")),
        (r"C:\", None),
        ("C:", None),
        ("C:a", Some("C:")),
        (r"\\server\share\a", Some("//server/share/")),
        (r"\\server\share\", None),
        (r"\\server\share", None),
        (r"\\.\COM1\a", Some("//./COM1/")),
        (r"\a", Some("/")),
        ("a", Some("")),
    ] {
        let found = windows(p).parent_on(Platform::Windows);
        assert_eq!(found.as_ref().map(text).as_deref(), parent, "{p}");
    }
}

#[test]
fn prefixes_are_stripped_on_windows() {
    for (p, base, rest) in [
        (r"C:\a\b", r"c:\a", Some("b")),
        (r"C:\a\b", r"D:\a", None),
        (r"C:\a", "C:", Some("/a")),
        (r"C:\a\", "", Some("C:/a")),
        (r"\\s\h\a", r"\\s\h", Some("a")),
        (r"\\s\h\a", r"\\S\h", None),
        (r"\\s\h", r"\\s\h\", Some("")),
        (r"a\b", "a", Some("b")),
        (r"C:\a", r"\a", None),
    ] {
        let found = windows(p).strip_prefix_on(&windows(base), Platform::Windows);
        assert_eq!(found.as_ref().map(text).as_deref(), rest, "{p} {base}");
    }
}

#[test]
fn leading_dots_on_windows() {
    let strip = |p: &str| text(&strip_leading_relative(&windows(p), Platform::Windows));
    assert_eq!(strip(r"..\.\a\b"), "a/b");
    assert_eq!(strip(r"C:..\a\"), "C:../a");
    assert_eq!(strip(r"\..\a"), "/../a");
}

#[test]
fn git_roots_on_windows() {
    let is_dir = |p: &FsPath| text(p) == "C:/r/.git";
    let found = relative_to_git_root(&windows(r"C:\r\s\f.sql"), Platform::Windows, is_dir);
    assert_eq!(found.as_ref().map(text), Some("s/f.sql".to_string()));
    let is_dir = |p: &FsPath| text(p) == "//s/h/.git";
    let found = relative_to_git_root(&windows(r"\\s\h\f.sql"), Platform::Windows, is_dir);
    assert_eq!(found.as_ref().map(text), Some("f.sql".to_string()));
}

fn native(p: &FsPath) -> String {
    String::from_utf8(p.to_native(Platform::Windows)).unwrap()
}

#[test]
fn components_are_those_of_the_platform() {
    for a in SAMPLES {
        let parts: Vec<String> = FsPath::from_text(a).parts(Dots::Skip).iter().map(text).collect();
        let expected: Vec<String> = Path::new(a)
            .components()
            .map(|c| c.as_os_str().to_str().unwrap().to_string())
            .collect();
        assert_eq!(parts, expected, "{a}");
    }
    let parts: Vec<String> = FsPath::from_text("/a/./b").parts(Dots::Keep).iter().map(text).collect();
    assert_eq!(parts, ["/", "a", ".", "b"]);
}

#[test]
fn verbatim_paths_keep_their_form() {
    for p in [
        r"\\?\C:\a\b",
        r"\\?\UNC\server\share\a",
        r"\\?\Volume{1}\a/b",
        r"\\?\C:\a/b\.\c",
        r"\\?\",
    ] {
        assert_eq!(native(&windows(p)), p);
    }
    assert_eq!(native(&windows(r"C:\a")), "C:/a");
    assert_eq!(FsPath::from_text(r"\a/b").to_native(Platform::Posix), br"\a/b");
}

#[test]
fn absolute_verbatim_paths() {
    for (p, absolute) in [
        (r"\\?\C:", true),
        (r"\\?\C:\a", true),
        (r"\\?\UNC\server\share", true),
        (r"\\?\Volume{1}", true),
        (r"//?/x", true),
        (r"//?", false),
    ] {
        assert_eq!(windows(p).is_absolute_on(Platform::Windows), absolute, "{p}");
    }
}

#[test]
fn parents_of_verbatim_paths() {
    for (p, parent) in [
        (r"\\?\UNC\server\share", None),
        (r"\\?\UNC\server\share\", None),
        (r"\\?\UNC\server\share\a", Some(r"\\?\UNC\server\share\")),
        (r"\\?\UNC\server\share\a\b", Some(r"\\?\UNC\server\share\a")),
        (r"\\?\UNC/server\share\a", Some(r"\\?\UNC\server\share\")),
        (r"\\?\UNC\server", None),
        (r"\\?\UNC\server\\a", Some(r"\\?\UNC\server\")),
        (r"\\?\UNC", None),
        (r"\\?\C:", None),
        (r"\\?\C:\", None),
        (r"\\?\C:\a", Some(r"\\?\C:\")),
        (r"\\?\C:/a", Some(r"\\?\C:\")),
        (r"\\?\C:\a/b", Some(r"\\?\C:\")),
        (r"\\?\C:\a\.", Some(r"\\?\C:\a")),
        (r"\\?\C:\a\..", Some(r"\\?\C:\a")),
        (r"\\?\C:a", None),
        (r"\\?\C:a\b", Some(r"\\?\C:a\")),
        (r"\\?\Volume{1}\a", Some(r"\\?\Volume{1}\")),
        (r"\\?\Volume{1}", None),
        (r"//?/UNC/server", Some("//?/UNC/")),
    ] {
        let found = windows(p).parent_on(Platform::Windows);
        assert_eq!(found.as_ref().map(native).as_deref(), parent, "{p}");
    }
}

#[test]
fn joins_on_verbatim_paths() {
    for (base, tail, expected) in [
        (r"\\?\C:\proj", "logs", r"\\?\C:\proj\logs"),
        (r"\\?\C:\proj", r"..\logs", r"\\?\C:\logs"),
        (r"\\?\C:\proj", r"../../../logs", r"\\?\C:\logs"),
        (r"\\?\C:\proj", r".\a\.\b", r"\\?\C:\proj\a\b"),
        (r"\\?\C:\proj", r"..", r"\\?\C:\"),
        (r"\\?\C:\proj", r"\logs", r"\\?\C:\logs"),
        (r"\\?\C:\proj", r"\", r"\\?\C:\"),
        (r"\\?\C:\proj", "", r"\\?\C:\proj\"),
        (r"\\?\C:\proj\", "", r"\\?\C:\proj\"),
        (r"\\?\C:\proj", r"D:\logs", "D:/logs"),
        (r"\\?\C:\proj", r"\\?\D:\logs", r"\\?\D:\logs"),
        (r"\\?\C:\a\..", r"..", r"\\?\C:\a\.."),
        (r"\\?\C:\a/b", "c/d", r"\\?\C:\a/b\c\d"),
        (r"\\?\C:", "a", r"\\?\C:\a"),
        (r"\\?\C:", ".", r"\\?\C:"),
        (r"\\?\C:", "", r"\\?\C:\"),
        (r"\\?\UNC\server\share", "a", r"\\?\UNC\server\share\a"),
        (r"\\?\UNC\server\share\x", r"..\..\a", r"\\?\UNC\server\share\a"),
        (r"D:\proj", r"\\?\C:\logs", r"\\?\C:\logs"),
    ] {
        let joined = windows(base).join_on(&windows(tail), Platform::Windows);
        assert_eq!(native(&joined), expected, "{base} {tail}");
        assert_eq!(
            native(&windows(base).join_text_on(tail, Platform::Windows)),
            expected,
            "{base} {tail}"
        );
    }
}

#[test]
fn verbatim_prefixes_are_stripped() {
    for (p, base, rest) in [
        (r"\\?\C:\a\b", r"\\?\c:\a", Some("b")),
        (r"\\?\C:\a\b", r"C:\a", None),
        (r"\\?\C:\a", r"\\?\C:", Some("/a")),
        (r"\\?\C:\a\", "", Some(r"\\?\C:/a")),
        (r"\\?\UNC\s\h\a", r"\\?\UNC\s\h\", Some("a")),
        (r"\\?\UNC\s\h\a", r"\\?\UNC\S\h\", None),
        (r"\\?\UNC\s\h\a", r"\\s\h", None),
        (r"\\?\C:\a\.\b", r"\\?\C:\a", Some("./b")),
        (r"\\?\C:\a\.\b", r"\\?\C:\a\.", Some("b")),
        (r"\\?\C:\a\b", r"\\?\C:\a\.", None),
    ] {
        let found = windows(p).strip_prefix_on(&windows(base), Platform::Windows);
        assert_eq!(found.as_ref().map(text).as_deref(), rest, "{p} {base}");
    }
}

#[test]
fn leading_dots_of_verbatim_paths_stay() {
    let strip = |p: &str| native(&strip_leading_relative(&windows(p), Platform::Windows));
    assert_eq!(strip(r"\\?\C:\..\a\"), r"\\?\C:\..\a");
    assert_eq!(strip(r"\\?\C:\.\a"), r"\\?\C:\.\a");
}

#[test]
fn git_roots_of_verbatim_paths() {
    let is_dir = |p: &FsPath| native(p) == r"\\?\UNC\server\share\.git";
    let found =
        relative_to_git_root(&windows(r"\\?\UNC\server\share\s\f.sql"), Platform::Windows, is_dir);
    assert_eq!(found.as_ref().map(text), Some("s/f.sql".to_string()));
    let anywhere = |_: &FsPath| true;
    let share = windows(r"\\?\UNC\server\share");
    assert!(relative_to_git_root(&share, Platform::Windows, anywhere).is_none());
}

#[test]
fn the_native_form_is_taken_over_again() {
    for p in [
        r"C:\a/b",
        r"\\server\share\a",
        r"\\?\C:/a/b\c",
        r"\\?\UNC/server/x\share\a",
        r"\\?/x",
        "a",
        "",
    ] {
        let held = windows(p);
        assert_eq!(text(&windows(&native(&held))), text(&held), "{p}");
    }
    assert_eq!(native(&windows(r"\\?\C:/a/b\c")), r"\\?\C:\a/b\c");
    assert_eq!(native(&windows(r"\\?/x")), "//?/x");
}
