//! Laws of the test harness: repositories, messages, copies, walks and runs of tasks.

use crate::error::ErrorCode;
use crate::error::FsError;
use crate::file_walk::action_for;
use crate::file_walk::open_after;
use crate::file_walk::ActionView;
use crate::file_walk::EventView;
use crate::name_laws::encoded;
use crate::name_laws::glued_name;
use crate::name_laws::is_name_part;
use crate::name_laws::law_path_of_name;
use crate::path::components;
use crate::path::Dots;
use crate::path::FsPath;
use crate::platform::ancestors_on;
use crate::platform::components_on;
use crate::platform::dots_of;
use crate::platform::joined_on;
use crate::platform::joined_text;
use crate::platform::stripped_on;
use crate::platform::Platform;
use crate::platform_laws::law_ancestor_is_prefix;
use crate::platform_laws::law_stripped_components;
use crate::task_run::all_patches;
use crate::task_run::counted_tasks;
use crate::task_run::patches_of;
use crate::task_run::task_environment;
use crate::task_run::test_cloud_config_dir;
use crate::task_run::TaskOutcome;
use crate::task_run::TaskRun;
use crate::task_seq::fs_cmd_from_parts;
use crate::task_seq::texts;
use crate::task_seq::TaskSeq;
use crate::task_seq::TaskSeqView;
use crate::task_seq::TaskView;
use crate::text::contains_text;
use crate::text::decimal_text;
use crate::text_laws::lemma_last_piece_steps;
use crate::utils::answers;
use crate::utils::check_set_user_env_var;
use crate::utils::compares_contents;
use crate::utils::copy_step;
use crate::utils::is_git_root;
use crate::utils::missing_log_message;
use crate::utils::relative_to_git_root;
use crate::utils::str_in_log_messages;
use crate::utils::strip_full_test_name;
use crate::utils::vec_sorted_eq;
use crate::utils::CopyStep;
use crate::utils::JsonLogEvent;
use vstd::prelude::*;

verus! {

/// Whether `is_dir` can say of the directory `.git` in `dir` what `answer` says.
pub open spec fn holds_git<F: Fn(&FsPath) -> bool>(
    is_dir: F,
    platform: Platform,
    dir: Seq<u8>,
    answer: bool,
) -> bool {
    exists|p: FsPath|
        p@ == joined_text(platform, dir, ".git"@) && #[trigger] is_dir.ensures((&p,), answer)
}

/// A path is seen from the nearest directory above it that holds a git directory; every nearer one
/// was asked and holds none. What is left has the components of the path behind that directory.
/// Where nothing is left, every directory above the path was asked and holds none.
pub proof fn law_git_root<F: Fn(&FsPath) -> bool>(
    path: &FsPath,
    platform: Platform,
    is_dir: F,
    r: Option<FsPath>,
)
    requires
        call_ensures(relative_to_git_root::<F>, (path, platform, is_dir), r),
    ensures
        r is None ==> forall|j: int|
            0 <= j < ancestors_on(platform, path@).len() ==> holds_git(
                is_dir,
                platform,
                #[trigger] ancestors_on(platform, path@)[j],
                false,
            ),
        r matches Some(rest) ==> exists|k: int|
            {
                &&& 0 <= k < ancestors_on(platform, path@).len()
                &&& holds_git(is_dir, platform, #[trigger] ancestors_on(platform, path@)[k], true)
                &&& forall|j: int|
                    0 <= j < k ==> holds_git(
                        is_dir,
                        platform,
                        #[trigger] ancestors_on(platform, path@)[j],
                        false,
                    )
                &&& stripped_on(platform, path@, ancestors_on(platform, path@)[k]) == Some(rest@)
            },
{
    let above = ancestors_on(platform, path@);
    if r is None {
        assert forall|j: int| 0 <= j < above.len() implies holds_git(
            is_dir,
            platform,
            #[trigger] above[j],
            false,
        ) by {
            lemma_holds_git(is_dir, platform, above[j], false);
        }
    } else {
        let rest = r->0;
        let k = choose|k: int| #[trigger]
            is_git_root(is_dir, platform, path@, k) && stripped_on(platform, path@, above[k])
                == Some(rest@);
        lemma_holds_git(is_dir, platform, above[k], true);
        assert forall|j: int| 0 <= j < k implies holds_git(
            is_dir,
            platform,
            #[trigger] above[j],
            false,
        ) by {
            lemma_holds_git(is_dir, platform, above[j], false);
        }
    }
}

proof fn lemma_holds_git<F: Fn(&FsPath) -> bool>(
    is_dir: F,
    platform: Platform,
    dir: Seq<u8>,
    answer: bool,
)
    requires
        answers(is_dir, crate::utils::git_dir(platform, dir), answer),
    ensures
        holds_git(is_dir, platform, dir, answer),
{
    let p = choose|p: FsPath|
        p@ == crate::utils::git_dir(platform, dir) && #[trigger] is_dir.ensures((&p,), answer);
    assert(p@ == joined_text(platform, dir, ".git"@));
}

/// What is left of a path in a repository has the last components of the path: one more than there
/// are directories between the path and the root of the repository.
pub proof fn law_git_root_rest(platform: Platform, path: Seq<u8>, k: int, rest: Seq<u8>)
    requires
        0 <= k < ancestors_on(platform, path).len(),
        ancestors_on(platform, path)[k].len() > 0,
        stripped_on(platform, path, ancestors_on(platform, path)[k]) == Some(rest),
    ensures
        components(dots_of(platform, path), rest) == components_on(platform, path).skip(
            components_on(platform, path).len() - 1 - k,
        ),
{
    let above = ancestors_on(platform, path)[k];
    let all = components_on(platform, path);
    law_ancestor_is_prefix(platform, path, k);
    law_stripped_components(platform, path, above);
    let n = all.len() - 1 - k;
    assert(components_on(platform, above) == all.take(n));
    assert(components_on(platform, above) + components(dots_of(platform, path), rest) == all);
    assert(all.skip(n) =~= components(dots_of(platform, path), rest));
}

/// A log is found to hold a text exactly where one of its messages is made of a start, the text
/// and a rest; a line without a message counts as an empty one.
pub proof fn law_log_messages(logs: &[JsonLogEvent], search_str: &str, r: bool)
    requires
        call_ensures(str_in_log_messages, (logs, search_str), r),
    ensures
        r ==> exists|i: int, a: Seq<char>, b: Seq<char>|
            {
                &&& 0 <= i < logs@.len()
                &&& match #[trigger] logs@[i].msg {
                    Some(m) => m@ == #[trigger] (a + search_str@ + b),
                    None => search_str@.len() == 0,
                }
            },
        forall|i: int, a: Seq<char>, b: Seq<char>|
            0 <= i < logs@.len() && (#[trigger] logs@[i].msg matches Some(m) && m@ == #[trigger] (a
                + search_str@ + b)) ==> r,
        logs@.len() > 0 && search_str@.len() == 0 ==> r,
{
    let pat = search_str@;
    let n = pat.len() as int;
    if r {
        let i = choose|i: int|
            0 <= i < logs@.len() && contains_text(#[trigger] logs@[i].message(), pat);
        let s = logs@[i].message();
        let k = choose|k: int| 0 <= k <= s.len() - n && #[trigger] s.subrange(k, k + n) == pat;
        let a = s.subrange(0, k);
        let b = s.subrange(k + n, s.len() as int);
        assert(s =~= a + pat + b);
        assert(logs@[i].msg is None || logs@[i].msg->0@ == a + pat + b);
    }
    if logs@.len() > 0 && n == 0 {
        let s = logs@[0].message();
        assert(s.subrange(0, 0 + n) =~= pat);
        assert(contains_text(s, pat));
    }
    assert forall|i: int, a: Seq<char>, b: Seq<char>|
        0 <= i < logs@.len() && (#[trigger] logs@[i].msg matches Some(m) && m@ == #[trigger] (a
            + pat + b)) implies r by {
        let s = logs@[i].message();
        assert(s.subrange(a.len() as int, a.len() + n) =~= pat);
        assert(contains_text(s, pat));
    }
}

/// What is said of a log that does not hold a text.
pub proof fn law_missing_message(search_str: &str, r: String)
    requires
        call_ensures(missing_log_message, (search_str,), r),
    ensures
        r@ == "Log message containing '"@ + search_str@ + "' not found"@,
{
}

/// Two vectors are found equal exactly where each value occurs as often in one as in the other.
pub proof fn law_equal_up_to_order<T: PartialEq + DeepView>(
    expected: &Vec<T>,
    actual: &Vec<T>,
    e: Seq<T::V>,
    a: Seq<T::V>,
    r: bool,
)
    requires
        compares_contents::<T>(),
        call_ensures(vec_sorted_eq::<T>, (expected, actual), r),
        e.len() == expected@.len(),
        forall|i: int| 0 <= i < e.len() ==> #[trigger] e[i] == expected@[i].deep_view(),
        a.len() == actual@.len(),
        forall|i: int| 0 <= i < a.len() ==> #[trigger] a[i] == actual@[i].deep_view(),
    ensures
        r <==> forall|x: T::V| e.to_multiset().count(x) == #[trigger] a.to_multiset().count(x),
{
    assert(e =~= crate::utils::contents(expected@));
    assert(a =~= crate::utils::contents(actual@));
    if forall|x: T::V| e.to_multiset().count(x) == #[trigger] a.to_multiset().count(x) {
        assert(e.to_multiset() =~= a.to_multiset());
    }
}

/// An entry of a directory is copied to where it stands behind the source, seen from the target: a
/// directory is made there, a file is copied there from where it is. An entry that cannot be read
/// ends the copy.
pub proof fn law_copy_step(
    src: &FsPath,
    dst: &FsPath,
    src_name: &str,
    entry: Option<&FsPath>,
    is_dir: bool,
    platform: Platform,
    r: Result<CopyStep, FsError>,
)
    requires
        entry matches Some(path) ==> stripped_on(platform, path@, src@) is Some,
        call_ensures(copy_step, (src, dst, src_name, entry, is_dir, platform), r),
    ensures
        entry is None ==> {
            &&& r matches Err(e)
            &&& e.code == ErrorCode::Unexpected
            &&& e.message@ == "Failed to read entry in directory: "@ + src_name@
        },
        entry matches Some(path) ==> {
            let target = joined_on(platform, dst@, stripped_on(platform, path@, src@)->0);
            &&& is_dir ==> (r matches Ok(CopyStep::CreateDir { dir }) && dir@ == target)
            &&& !is_dir ==> {
                &&& r matches Ok(CopyStep::CopyFile { from, to })
                &&& from@ == path@
                &&& to@ == target
            }
        },
{
}

/// `USER` is set only where it is not set, to the run and its number with an `x` between them;
/// without a run it starts with zeros.
pub proof fn law_user_variable(
    user_is_set: bool,
    run_id: Option<&str>,
    run_number: Option<&str>,
    r: Option<String>,
)
    requires
        call_ensures(check_set_user_env_var, (user_is_set, run_id, run_number), r),
    ensures
        user_is_set ==> r is None,
        !user_is_set ==> {
            &&& r matches Some(value)
            &&& run_id matches Some(id) ==> {
                &&& run_number matches Some(n) ==> value@ == id@ + "x"@ + n@
                &&& run_number is None ==> value@ == id@ + "x"@ + "0"@
            }
            &&& run_id is None ==> {
                &&& run_number matches Some(n) ==> value@ == "0000000"@ + "x"@ + n@
                &&& run_number is None ==> value@ == "0000000"@ + "x"@ + "0"@
            }
        },
{
}

/// A directory that is met is opened and read next; a file is handed out and nothing is opened or
/// closed; at its end the innermost directory is closed.
pub proof fn law_walk_steps(open: Seq<Seq<u8>>, path: Seq<u8>)
    ensures
        action_for(EventView::Entry { path, is_dir: true }) == (ActionView::Open { dir: path }),
        open_after(open, EventView::Entry { path, is_dir: true }) == open.push(path),
        action_for(EventView::Entry { path, is_dir: false }) == (ActionView::Handle {
            file: path,
        }),
        open_after(open, EventView::Entry { path, is_dir: false }) == open,
        action_for(EventView::End) is Close,
        open_after(open.push(path), EventView::End) == open,
{
    assert(open.push(path).drop_last() =~= open);
}

/// A task that fails ends the run with its error. After any other the run goes on: one more task
/// is done, one more counts where the task counts, and the patches of a mismatch are kept behind
/// those before.
pub proof fn law_task_outcomes<E>(
    run: TaskRun,
    outcome: TaskOutcome<E>,
    counted: bool,
    r: Result<TaskRun, E>,
)
    requires
        run.index <= run.done < run.total,
        call_ensures(TaskRun::advance::<E>, (run, outcome, counted), r),
    ensures
        outcome matches TaskOutcome::Failed(e) ==> r == Err::<TaskRun, E>(e),
        !(outcome is Failed) ==> {
            &&& r matches Ok(next)
            &&& next.total == run.total
            &&& next.done == run.done + 1
            &&& counted ==> next.index == run.index + 1
            &&& !counted ==> next.index == run.index
            &&& outcome is Passed ==> next.patches@ == run.patches@
            &&& outcome matches TaskOutcome::GoldieMismatch(p) ==> next.patches@ == run.patches@
                + p@
        },
{
    if outcome is Passed {
        assert(run.patches@ + Seq::<String>::empty() =~= run.patches@);
    }
}

/// A run without patches has nothing to report; any other reports its patches in order, between
/// two lines that mark them.
pub proof fn law_run_report(run: TaskRun, r: Option<Vec<String>>)
    requires
        run.done == run.total,
        call_ensures(TaskRun::finish, (run,), r),
    ensures
        r is None <==> run.patches@.len() == 0,
        r matches Some(lines) ==> {
            &&& lines@.len() == run.patches@.len() + 2
            &&& lines@[0]@ == "<<<<<<<< BEGIN PATCH"@
            &&& lines@.last()@ == ">>>>>>>> END PATCH"@
            &&& forall|i: int|
                0 <= i < run.patches@.len() ==> lines@[i + 1]@ == (#[trigger] run.patches@[i])@
        },
{
    if let Some(lines) = r {
        let t = texts(lines@);
        let p = texts(run.patches@);
        assert(t.len() == lines@.len());
        assert(t.len() == p.len() + 2);
        assert(t[0] == lines@[0]@);
        assert(t[t.len() - 1] == lines@[lines@.len() - 1]@);
        assert forall|i: int| 0 <= i < run.patches@.len() implies lines@[i + 1]@ == (
        #[trigger] run.patches@[i])@ by {
            assert(t[i + 1] == lines@[i + 1]@);
            assert(p[i] == run.patches@[i]@);
            assert(t[i + 1] == p[i]);
        }
    }
}

proof fn lemma_patches_concat<E>(a: Seq<TaskOutcome<E>>, b: Seq<TaskOutcome<E>>)
    ensures
        all_patches(a + b) == all_patches(a) + all_patches(b),
    decreases b.len(),
{
    if b.len() == 0 {
        assert(a + b =~= a);
        assert(all_patches(a) + all_patches(b) =~= all_patches(a));
    } else {
        lemma_patches_concat(a, b.drop_last());
        assert((a + b).drop_last() =~= a + b.drop_last());
        assert((a + b).last() == b.last());
        assert(all_patches(a + b) =~= all_patches(a) + all_patches(b));
    }
}

/// The patches of several tasks are those of each, in order; a task adds patches only where its
/// output differs.
pub proof fn law_patches_in_order<E>(
    a: Seq<TaskOutcome<E>>,
    outcome: TaskOutcome<E>,
    b: Seq<TaskOutcome<E>>,
)
    ensures
        outcome matches TaskOutcome::GoldieMismatch(p) ==> all_patches(a + seq![outcome] + b)
            == all_patches(a) + p@ + all_patches(b),
        !(outcome is GoldieMismatch) ==> all_patches(a + seq![outcome] + b) == all_patches(a)
            + all_patches(b),
{
    lemma_patches_concat(a + seq![outcome], b);
    assert((a + seq![outcome]).drop_last() =~= a);
    assert((a + seq![outcome]).last() == outcome);
    assert(all_patches(a + seq![outcome]) == all_patches(a) + patches_of(outcome));
    if !(outcome is GoldieMismatch) {
        assert(all_patches(a) + patches_of(outcome) =~= all_patches(a));
    }
}

/// Of several tasks, those are counted that count.
pub proof fn law_counted_tasks(a: Seq<bool>, counted: bool)
    ensures
        counted_tasks(Seq::<bool>::empty()) == 0,
        counted ==> counted_tasks(a.push(counted)) == counted_tasks(a) + 1,
        !counted ==> counted_tasks(a.push(counted)) == counted_tasks(a),
{
    assert(a.push(counted).drop_last() =~= a);
}

/// Tests of different processes look for credentials in directories of their own, in the directory
/// for temporary files, named after the process.
pub proof fn law_cloud_config_dir(
    temp_dir: &FsPath,
    process_id: u32,
    platform: Platform,
    r: FsPath,
    number: String,
)
    requires
        call_ensures(test_cloud_config_dir, (temp_dir, process_id, platform), r),
        call_ensures(decimal_text, (process_id,), number),
    ensures
        r@ == joined_text(platform, temp_dir@, "dbt-test-no-cloud-config-"@ + number@),
{
}

/// Tasks run with the variables that are given, in order; behind them the query cache is switched
/// on exactly where it is on outside.
pub proof fn law_task_environment<'a>(
    set_env: &[(&'a str, &'a str)],
    query_cache: Option<&str>,
    r: Vec<(&'a str, &'a str)>,
)
    requires
        call_ensures(task_environment, (set_env, query_cache), r),
    ensures
        forall|i: int|
            0 <= i < set_env@.len() ==> (#[trigger] r@[i]).0@ == set_env@[i].0@ && r@[i].1@
                == set_env@[i].1@,
        query_cache is None ==> r@.len() == set_env@.len(),
        query_cache matches Some(value) ==> {
            &&& value@ != "1"@ ==> r@.len() == set_env@.len()
            &&& value@ == "1"@ ==> {
                &&& r@.len() == set_env@.len() + 1
                &&& r@.last().0@ == "DBT_TEST_QUERY_CACHE"@
                &&& r@.last().1@ == "1"@
            }
        },
{
    let given = crate::task_run::assignments(set_env@);
    let all = crate::task_run::assignments(r@);
    assert(all.len() == r@.len());
    assert(given.len() == set_env@.len());
    assert forall|i: int| 0 <= i < set_env@.len() implies (#[trigger] r@[i]).0@
        == set_env@[i].0@ && r@[i].1@ == set_env@[i].1@ by {
        assert(given[i] == (set_env@[i].0@, set_env@[i].1@));
        assert(all[i] == (r@[i].0@, r@[i].1@));
    }
    if r@.len() > 0 {
        assert(all[all.len() - 1] == (r@.last().0@, r@.last().1@));
    }
}

/// A task that is added is the last one; the tasks before it and the names stay.
pub proof fn law_added_task<T, F>(seq: TaskSeqView<T, F>, task: TaskView<T, F>, i: int)
    requires
        0 <= i < seq.tasks.len(),
    ensures
        seq.with_task(task).tasks.len() == seq.tasks.len() + 1,
        seq.with_task(task).tasks.last() == task,
        seq.with_task(task).tasks[i] == seq.tasks[i],
        seq.with_task(task).name == seq.name,
        seq.with_task(task).full_name == seq.full_name,
{
}

/// A sequence is named after its test: its full name is that of the test, its name the last part.
/// It starts without tasks.
pub proof fn law_names_of_a_sequence<T, F>(
    full_test_name: String,
    text: &str,
    seq: TaskSeq<T, F>,
    name: String,
)
    requires
        text@ == full_test_name@,
        call_ensures(TaskSeq::<T, F>::new, (full_test_name,), seq),
        call_ensures(strip_full_test_name, (text,), name),
    ensures
        seq@.full_name == full_test_name@,
        seq@.name == name@,
        seq@.tasks.len() == 0,
{
}

/// The name of a test is what follows the last `::` of its full name.
pub proof fn law_short_name(
    full_name: &str,
    name: String,
    front: Seq<char>,
    rest: &str,
    short: String,
)
    requires
        call_ensures(strip_full_test_name, (full_name,), name),
        call_ensures(strip_full_test_name, (rest,), short),
    ensures
        (forall|a: Seq<char>, b: Seq<char>| full_name@ != #[trigger] (a + "::"@ + b)) ==> name@
            == full_name@,
        full_name@ == front + "::"@ + rest@ && (forall|a: Seq<char>, b: Seq<char>|
            full_name@ == #[trigger] (a + "::"@ + b) ==> a.len() >= front.len()) ==> name@
            == short@,
{
    reveal_strlit("::");
    lemma_last_piece_steps(full_name@, "::"@, front, rest@);
}

/// The path of a test has the parts of its full name as components.
pub proof fn law_path_of_a_sequence<T, F>(
    seq: &TaskSeq<T, F>,
    parts: Seq<Seq<char>>,
    path: FsPath,
)
    requires
        parts.len() > 0,
        forall|i: int| 0 <= i < parts.len() ==> is_name_part(#[trigger] parts[i]),
        seq@.full_name == glued_name(parts, "::"@),
        call_ensures(TaskSeq::<T, F>::unique_path, (seq,), path),
    ensures
        components(Dots::Skip, path@) == encoded(parts),
{
    law_path_of_name(parts);
}

/// A command line is `fs`, the parts of the command in order, and `--show progress` unless one of
/// the parts is `--show`. It holds nothing else.
pub proof fn law_command_line(parts: Vec<String>, r: Vec<String>)
    requires
        call_ensures(fs_cmd_from_parts, (parts,), r),
    ensures
        r@.len() >= parts@.len() + 1,
        r@[0]@ == "fs"@,
        forall|i: int|
            0 <= i < parts@.len() ==> r@[i + 1]@ == (#[trigger] parts@[i])@,
        (exists|i: int| 0 <= i < parts@.len() && (#[trigger] parts@[i])@ == "--show"@) ==> r@.len()
            == parts@.len() + 1,
        !(exists|i: int| 0 <= i < parts@.len() && (#[trigger] parts@[i])@ == "--show"@) ==> {
            &&& r@.len() == parts@.len() + 3
            &&& r@[parts@.len() as int + 1]@ == "--show"@
            &&& r@[parts@.len() as int + 2]@ == "progress"@
        },
{
    let t = texts(r@);
    let p = texts(parts@);
    assert(t.len() == r@.len());
    assert(p.len() == parts@.len());
    assert(t[0] == r@[0]@);
    assert forall|i: int| 0 <= i < parts@.len() implies r@[i + 1]@ == (#[trigger] parts@[i])@ by {
        assert(t[i + 1] == r@[i + 1]@);
        assert(p[i] == parts@[i]@);
        assert(t[i + 1] == p[i]);
    }
    if exists|i: int| 0 <= i < parts@.len() && (#[trigger] parts@[i])@ == "--show"@ {
        let i = choose|i: int| 0 <= i < parts@.len() && (#[trigger] parts@[i])@ == "--show"@;
        assert(p[i] == "--show"@);
        assert(p.contains("--show"@));
    } else {
        if p.contains("--show"@) {
            let i = choose|i: int| 0 <= i < p.len() && p[i] == "--show"@;
            assert(parts@[i]@ == "--show"@);
        }
        assert(t[p.len() as int + 1] == r@[p.len() as int + 1]@);
        assert(t[p.len() as int + 2] == r@[p.len() as int + 2]@);
    }
}

} // verus!
