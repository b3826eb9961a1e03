//! Helpers of the test harness: names, paths, comparisons and directory copies.

use crate::error::ErrorCode;
use crate::error::FsError;
use crate::path::components;
use crate::path::is_dot_component;
use crate::path::Dots;
use crate::path::FsPath;
use crate::path::DOT;
use crate::path_laws::law_dots_do_not_matter;
use crate::platform::body_of;
use crate::platform::is_verbatim;
use crate::platform::ancestors_on;
use crate::platform::components_on;
use crate::platform::joined_on;
use crate::platform::joined_text;
use crate::platform::prefix_len;
use crate::platform::stripped_on;
use crate::platform::without_dots_on;
use crate::platform::Platform;
use crate::platform_laws::law_ancestor_is_prefix;
use crate::platform_laws::law_ancestors_by_parents;
use crate::platform_laws::law_join_components_on;
use crate::platform_laws::law_stripped_components;
use crate::text::after_last;
use crate::text::concat;
use crate::text::contains;
use crate::text::contains_text;
use crate::text::last_piece;
use vstd::prelude::*;
use vstd::string::StringExecFns;

verus! {

/// What separates the parts of a test name.
pub const NAME_SEPARATOR: &'static str = "::";

/// The test name without the modules that lead to it.
pub fn strip_full_test_name(full_test_name: &str) -> (r: String)
    ensures
        r@ == last_piece(full_test_name@, NAME_SEPARATOR@, 0),
{
    proof {
        reveal_strlit("::");
    }
    after_last(full_test_name, NAME_SEPARATOR)
}

/// The path without `.` and `..` at its start.
pub fn strip_leading_relative(path: &FsPath, platform: Platform) -> (r: FsPath)
    ensures
        r@ == without_dots_on(platform, path@),
{
    path.without_leading_dots_on(platform)
}

/// The name of the git directory.
pub const GIT_DIR: &'static str = ".git";

/// Whether `is_dir` can answer `answer` for the path written as `text`.
pub open spec fn answers<F: Fn(&FsPath) -> bool>(is_dir: F, text: Seq<u8>, answer: bool) -> bool {
    exists|p: FsPath| p@ == text && #[trigger] is_dir.ensures((&p,), answer)
}

/// The git directory of a repository whose root is `dir`.
pub open spec fn git_dir(platform: Platform, dir: Seq<u8>) -> Seq<u8> {
    joined_text(platform, dir, GIT_DIR@)
}

/// Whether the answers of `is_dir` make the `k`-th path above `path` the git root: the nearest
/// one that holds a git directory.
pub open spec fn is_git_root<F: Fn(&FsPath) -> bool>(
    is_dir: F,
    platform: Platform,
    path: Seq<u8>,
    k: int,
) -> bool {
    let above = ancestors_on(platform, path);
    &&& 0 <= k < above.len()
    &&& answers(is_dir, git_dir(platform, above[k]), true)
    &&& forall|j: int|
        0 <= j < k ==> answers(is_dir, git_dir(platform, #[trigger] above[j]), false)
}

/// The path seen from the root of its git repository; `None` where no path above it holds a
/// git directory.
pub fn relative_to_git_root<F: Fn(&FsPath) -> bool>(
    path: &FsPath,
    platform: Platform,
    is_dir: F,
) -> (r: Option<FsPath>)
    requires
        forall|p: &FsPath| is_dir.requires((p,)),
    ensures
        match r {
            Some(rest) => exists|k: int| #[trigger]
                is_git_root(is_dir, platform, path@, k) && stripped_on(
                    platform,
                    path@,
                    ancestors_on(platform, path@)[k],
                ) == Some(rest@),
            None => forall|j: int|
                0 <= j < ancestors_on(platform, path@).len() ==> answers(
                    is_dir,
                    git_dir(platform, #[trigger] ancestors_on(platform, path@)[j]),
                    false,
                ),
        },
{
    let mut current: FsPath = path.clone();
    let ghost all = ancestors_on(platform, path@);
    let ghost mut above: int = 0;
    assert(all =~= all.take(0) + ancestors_on(platform, current@));
    loop
        invariant
            forall|p: &FsPath| is_dir.requires((p,)),
            all == ancestors_on(platform, path@),
            0 <= above <= all.len(),
            all == all.take(above) + ancestors_on(platform, current@),
            forall|j: int|
                0 <= j < above ==> answers(
                    is_dir,
                    git_dir(platform, #[trigger] all[j]),
                    false,
                ),
        decreases current@.len(),
    {
        proof {
            law_ancestors_by_parents(platform, current@);
        }
        match current.parent_on(platform) {
            Some(parent) => {
                let ghost rest = ancestors_on(platform, parent@);
                proof {
                    assert(ancestors_on(platform, current@)[0] == parent@);
                    assert(all[above] == parent@);
                }
                let candidate: FsPath = parent.join_text_on(GIT_DIR, platform);
                let found: bool = is_dir(&candidate);
                assert(answers(is_dir, git_dir(platform, parent@), found));
                if found {
                    proof {
                        law_ancestor_is_prefix(platform, path@, above);
                        assert(is_git_root(is_dir, platform, path@, above));
                    }
                    return path.strip_prefix_on(&parent, platform);
                }
                proof {
                    assert(all =~= all.take(above + 1) + rest);
                    above = above + 1;
                }
                current = parent;
            },
            None => {
                return None;
            },
        }
    }
}

/// A log line, as far as its message goes.
#[derive(Debug)]
pub struct JsonLogEvent {
    /// The message, if the line has one.
    pub msg: Option<String>,
}

impl JsonLogEvent {
    /// The message; a line without one counts as an empty message.
    pub open spec fn message(&self) -> Seq<char> {
        match self.msg {
            Some(m) => m@,
            None => Seq::empty(),
        }
    }
}

/// Whether some message holds `search_str`.
pub open spec fn in_log_messages(logs: Seq<JsonLogEvent>, search_str: Seq<char>) -> bool {
    exists|i: int| 0 <= i < logs.len() && contains_text(#[trigger] logs[i].message(), search_str)
}

/// Whether some message holds `search_str`.
pub fn str_in_log_messages(logs: &[JsonLogEvent], search_str: &str) -> (r: bool)
    ensures
        r == in_log_messages(logs@, search_str@),
{
    let mut i: usize = 0;
    while i < logs.len()
        invariant
            i <= logs@.len(),
            forall|j: int|
                0 <= j < i ==> !contains_text(#[trigger] logs@[j].message(), search_str@),
        decreases logs@.len() - i,
    {
        let held: bool = match &logs[i].msg {
            Some(m) => contains(m.as_str(), search_str),
            None => {
                proof {
                    reveal_strlit("");
                    assert(""@ =~= Seq::empty());
                }
                contains("", search_str)
            },
        };
        assert(held == contains_text(logs@[i as int].message(), search_str@));
        if held {
            return true;
        }
        i += 1;
    }
    false
}

/// Passes where some message holds `search_str`.
pub fn assert_str_in_log_messages(logs: &[JsonLogEvent], search_str: &str) -> (r: Result<(), FsError>)
    requires
        in_log_messages(logs@, search_str@),
    ensures
        r is Ok,
{
    if str_in_log_messages(logs, search_str) {
        Ok(())
    } else {
        Err(FsError { code: ErrorCode::Unexpected, message: missing_log_message(search_str) })
    }
}

/// What is said of a log in which no message holds `search_str`.
pub fn missing_log_message(search_str: &str) -> (r: String)
    ensures
        r@ == "Log message containing '"@ + search_str@ + "' not found"@,
{
    let mut text: String = concat("Log message containing '", search_str);
    text.append("' not found");
    text
}

/// Whether `==` on `T` compares what values hold.
pub open spec fn compares_contents<T: PartialEq + DeepView>() -> bool {
    forall|a: &T, b: &T, r: bool| #[trigger]
        call_ensures(<T as PartialEq>::eq, (a, b), r) ==> r == (a.deep_view() == b.deep_view())
}

/// What the items hold.
pub open spec fn contents<T: DeepView>(items: Seq<T>) -> Seq<T::V> {
    items.map_values(|t: T| t.deep_view())
}

/// How often an item equal to `x` occurs among the items.
fn count_of<T: PartialEq + DeepView>(items: &Vec<T>, x: &T) -> (r: usize)
    requires
        compares_contents::<T>(),
    ensures
        r == contents(items@).to_multiset().count(x.deep_view()),
{
    let mut n: usize = 0;
    let mut i: usize = 0;
    let ghost all = contents(items@);
    proof {
        all.take(0).to_multiset_ensures();
        assert(all.take(0).to_multiset().count(x.deep_view()) == 0) by {
            assert(all.take(0).len() == 0);
        }
    }
    while i < items.len()
        invariant
            compares_contents::<T>(),
            all == contents(items@),
            i <= items@.len(),
            n <= i,
            n == all.take(i as int).to_multiset().count(x.deep_view()),
        decreases items@.len() - i,
    {
        proof {
            let before = all.take(i as int);
            before.to_multiset_ensures();
            assert(all.take(i + 1) =~= before.push(items@[i as int].deep_view()));
        }
        let same: bool = items[i].eq(x);
        assert(call_ensures(<T as PartialEq>::eq, (&items@[i as int], x), same));
        if same {
            n += 1;
        }
        i += 1;
    }
    assert(all.take(items@.len() as int) =~= all);
    n
}

/// Whether each of `items` occurs as often in `a` as in `b`.
fn counts_agree<T: PartialEq + DeepView>(items: &Vec<T>, a: &Vec<T>, b: &Vec<T>) -> (r: bool)
    requires
        compares_contents::<T>(),
    ensures
        r == forall|i: int|
            0 <= i < items@.len() ==> contents(a@).to_multiset().count(
                (#[trigger] items@[i]).deep_view(),
            ) == contents(b@).to_multiset().count(items@[i].deep_view()),
{
    let mut i: usize = 0;
    while i < items.len()
        invariant
            compares_contents::<T>(),
            i <= items@.len(),
            forall|j: int|
                0 <= j < i ==> contents(a@).to_multiset().count(
                    (#[trigger] items@[j]).deep_view(),
                ) == contents(b@).to_multiset().count(items@[j].deep_view()),
        decreases items@.len() - i,
    {
        if count_of(a, &items[i]) != count_of(b, &items[i]) {
            return false;
        }
        i += 1;
    }
    true
}

/// Whether two vectors hold equal items, each as often, in any order.
pub fn vec_sorted_eq<T: PartialEq + DeepView>(expected: &Vec<T>, actual: &Vec<T>) -> (r: bool)
    requires
        compares_contents::<T>(),
    ensures
        r == (contents(expected@).to_multiset() == contents(actual@).to_multiset()),
{
    if !counts_agree(expected, expected, actual) || !counts_agree(actual, expected, actual) {
        return false;
    }
    proof {
        let e = contents(expected@);
        let a = contents(actual@);
        e.to_multiset_ensures();
        a.to_multiset_ensures();
        assert forall|x: T::V| e.to_multiset().count(x) == a.to_multiset().count(x) by {
            if e.contains(x) {
                let i = choose|i: int| 0 <= i < e.len() && e[i] == x;
                assert(expected@[i].deep_view() == x);
            } else if a.contains(x) {
                let i = choose|i: int| 0 <= i < a.len() && a[i] == x;
                assert(actual@[i].deep_view() == x);
            }
        }
        assert(e.to_multiset() =~= a.to_multiset());
    }
    true
}

/// Passes where two vectors are equal up to order, and says so.
pub fn assert_vec_sorted_eq<T: PartialEq + DeepView>(expected: Vec<T>, actual: Vec<T>) -> (r: bool)
    requires
        compares_contents::<T>(),
        contents(expected@).to_multiset() == contents(actual@).to_multiset(),
    ensures
        r,
{
    vec_sorted_eq(&expected, &actual)
}

/// One step of copying a directory.
#[derive(Debug)]
pub enum CopyStep {
    /// Create a directory and those above it.
    CreateDir { dir: FsPath },
    /// Copy a file.
    CopyFile { from: FsPath, to: FsPath },
}

/// Where an entry of the directory `src` goes in the directory `dst`.
pub open spec fn copy_target(
    platform: Platform,
    src: Seq<u8>,
    dst: Seq<u8>,
    entry: Seq<u8>,
) -> Seq<u8> {
    joined_on(platform, dst, stripped_on(platform, entry, src)->0)
}

/// A copied directory is laid out as its source: an entry has behind `dst` the components that
/// it has behind `src`. On Windows, `src` is not a drive or verbatim prefix alone, and neither the
/// rest of the entry nor joining it names another volume. The rest of a verbatim entry holds no
/// `.`; behind a verbatim `dst`, which has a root, it holds no `.` and no `..`.
pub proof fn law_copy_keeps_layout(
    platform: Platform,
    src: Seq<u8>,
    dst: Seq<u8>,
    entry: Seq<u8>,
)
    requires
        src.len() > 0,
        stripped_on(platform, entry, src) is Some,
        body_of(platform, src).len() > 0,
        prefix_len(platform, stripped_on(platform, entry, src)->0) == 0,
        prefix_len(platform, copy_target(platform, src, dst, entry)) == prefix_len(platform, dst),
        is_verbatim(platform, entry) ==> forall|i: int|
            0 <= i < components(Dots::Keep, stripped_on(platform, entry, src)->0).len()
                ==> #[trigger] components(Dots::Keep, stripped_on(platform, entry, src)->0)[i]
                != seq![DOT],
        is_verbatim(platform, dst) ==> body_of(platform, dst).len() > 0 && forall|i: int|
            0 <= i < components(Dots::Skip, stripped_on(platform, entry, src)->0).len()
                ==> !is_dot_component(
                #[trigger] components(Dots::Skip, stripped_on(platform, entry, src)->0)[i],
            ),
    ensures
        components_on(platform, copy_target(platform, src, dst, entry)) == components_on(
            platform,
            dst,
        ) + components_on(platform, entry).skip(components_on(platform, src).len() as int),
{
    let rest = stripped_on(platform, entry, src)->0;
    law_stripped_components(platform, entry, src);
    if is_verbatim(platform, entry) {
        law_dots_do_not_matter(rest);
    }
    law_join_components_on(platform, dst, rest);
    assert(components(Dots::Skip, rest) =~= components_on(platform, entry).skip(
        components_on(platform, src).len() as int,
    ));
}

/// How an entry of the directory `src` is copied to the directory `dst`. An entry that could
/// not be read ends the copy.
pub fn copy_step(
    src: &FsPath,
    dst: &FsPath,
    src_name: &str,
    entry: Option<&FsPath>,
    is_dir: bool,
    platform: Platform,
) -> (r: Result<CopyStep, FsError>)
    requires
        entry matches Some(path) ==> stripped_on(platform, path@, src@) is Some,
    ensures
        match (entry, r) {
            (Some(path), Ok(CopyStep::CreateDir { dir })) => is_dir && dir@ == copy_target(
                platform,
                src@,
                dst@,
                path@,
            ),
            (Some(path), Ok(CopyStep::CopyFile { from, to })) => !is_dir && from@ == path@ && to@
                == copy_target(platform, src@, dst@, path@),
            (None, Err(e)) => e.code == ErrorCode::Unexpected && e.message@
                == "Failed to read entry in directory: "@ + src_name@,
            _ => false,
        },
{
    match entry {
        Some(path) => {
            let relative: FsPath = match path.strip_prefix_on(src, platform) {
                Some(rest) => rest,
                None => FsPath::new(),
            };
            let target: FsPath = dst.join_on(&relative, platform);
            if is_dir {
                Ok(CopyStep::CreateDir { dir: target })
            } else {
                Ok(CopyStep::CopyFile { from: path.clone(), to: target })
            }
        },
        None => Err(
            FsError::with_detail(
                ErrorCode::Unexpected,
                "Failed to read entry in directory: ",
                src_name,
            ),
        ),
    }
}

/// The value that the variable `USER` is set to where it is not set: the run and its number.
pub open spec fn user_value(run_id: Option<Seq<char>>, run_number: Option<Seq<char>>) -> Seq<char> {
    (match run_id {
        Some(id) => id,
        None => "0000000"@,
    }) + "x"@ + (match run_number {
        Some(n) => n,
        None => "0"@,
    })
}

/// The value to set the variable `USER` to; `None` where it is set.
pub fn check_set_user_env_var(
    user_is_set: bool,
    run_id: Option<&str>,
    run_number: Option<&str>,
) -> (r: Option<String>)
    ensures
        r is None <==> user_is_set,
        r matches Some(value) ==> value@ == user_value(
            crate::config::opt_str(run_id),
            crate::config::opt_str(run_number),
        ),
{
    if user_is_set {
        return None;
    }
    let id: &str = match run_id {
        Some(id) => id,
        None => "0000000",
    };
    let number: &str = match run_number {
        Some(number) => number,
        None => "0",
    };
    let mut value: String = concat(id, "x");
    value.append(number);
    Some(value)
}

} // verus!
