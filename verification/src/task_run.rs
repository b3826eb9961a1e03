//! Running the tasks of a sequence one after the other.

use crate::init::initialized_reloadable;
use crate::init::init_tracing_reloadable;
use crate::init::ProcessTracing;
use crate::level::LevelFilter;
use crate::path::FsPath;
use crate::platform::joined_text;
use crate::platform::Platform;
use crate::text::concat;
use crate::text::decimal;
use crate::text::decimal_text;
use crate::text::same_text;
use crate::task_seq::texts;
use vstd::prelude::*;

verus! {

/// What running a task came to.
#[derive(Debug)]
pub enum TaskOutcome<E> {
    Passed,
    /// The output differs from recorded outputs, by these patches.
    GoldieMismatch(Vec<String>),
    /// The task failed in another way.
    Failed(E),
}

/// Where a run of tasks stands.
#[derive(Debug)]
pub struct TaskRun {
    /// How many tasks there are.
    pub total: usize,
    /// How many of them have been run.
    pub done: usize,
    /// How many of those count; the next task is handed this number.
    pub index: usize,
    /// The patches to recorded outputs so far.
    pub patches: Vec<String>,
}

/// The patches of an outcome.
pub open spec fn patches_of<E>(outcome: TaskOutcome<E>) -> Seq<String> {
    match outcome {
        TaskOutcome::GoldieMismatch(p) => p@,
        _ => Seq::empty(),
    }
}

/// Whether `next` is `run` after a task that did not fail.
pub open spec fn ran<E>(run: TaskRun, outcome: TaskOutcome<E>, counted: bool, next: TaskRun) -> bool {
    &&& next.total == run.total
    &&& next.done == run.done + 1
    &&& next.index == run.index + if counted {
        1int
    } else {
        0int
    }
    &&& next.patches@ == run.patches@ + patches_of(outcome)
}

/// What is printed before the patches.
pub const BEGIN_PATCH: &'static str = "<<<<<<<< BEGIN PATCH";

/// What is printed behind the patches.
pub const END_PATCH: &'static str = ">>>>>>>> END PATCH";

/// The lines that report patches.
pub open spec fn patch_report(patches: Seq<Seq<char>>) -> Seq<Seq<char>> {
    seq![BEGIN_PATCH@] + patches + seq![END_PATCH@]
}

impl TaskRun {
    /// No more tasks count than have been run, and no more have been run than there are.
    pub open spec fn well_formed(&self) -> bool {
        self.index <= self.done <= self.total
    }

    /// The start of a run of `total` tasks.
    pub fn start(total: usize) -> (r: TaskRun)
        ensures
            r.total == total,
            r.done == 0,
            r.index == 0,
            r.patches@ == Seq::<String>::empty(),
            r.well_formed(),
    {
        TaskRun { total, done: 0, index: 0, patches: Vec::new() }
    }

    /// Takes what the next task came to. A mismatch with recorded outputs is noted and the run
    /// goes on; any other failure ends it.
    pub fn advance<E>(self, outcome: TaskOutcome<E>, counted: bool) -> (r: Result<TaskRun, E>)
        requires
            self.well_formed(),
            self.done < self.total,
        ensures
            match outcome {
                TaskOutcome::Failed(e) => r == Err::<TaskRun, E>(e),
                _ => r matches Ok(next) && ran(self, outcome, counted, next) && next.well_formed(),
            },
    {
        let TaskRun { total, done, index, patches } = self;
        let mut patches: Vec<String> = patches;
        match outcome {
            TaskOutcome::Passed => {},
            TaskOutcome::GoldieMismatch(p) => {
                let mut more: Vec<String> = p;
                patches.append(&mut more);
            },
            TaskOutcome::Failed(e) => {
                return Err(e);
            },
        }
        let next_index: usize = if counted {
            index + 1
        } else {
            index
        };
        Ok(TaskRun { total, done: done + 1, index: next_index, patches })
    }

    /// The report of a run that is over: `None` where all outputs were as recorded, else the
    /// lines to print before the run is given up.
    pub fn finish(self) -> (r: Option<Vec<String>>)
        requires
            self.done == self.total,
        ensures
            match r {
                None => self.patches@.len() == 0,
                Some(lines) => self.patches@.len() > 0 && texts(lines@) == patch_report(
                    texts(self.patches@),
                ),
            },
    {
        if self.patches.len() == 0 {
            return None;
        }
        let mut lines: Vec<String> = Vec::new();
        lines.push(BEGIN_PATCH.to_owned());
        let mut patches: Vec<String> = self.patches;
        lines.append(&mut patches);
        lines.push(END_PATCH.to_owned());
        assert(texts(lines@) =~= patch_report(texts(self.patches@)));
        Some(lines)
    }
}

/// Whether `runs` is what became of a run under `outcomes`, none of which was a failure.
pub open spec fn is_task_run<E>(
    runs: Seq<TaskRun>,
    outcomes: Seq<TaskOutcome<E>>,
    counted: Seq<bool>,
) -> bool {
    &&& runs.len() == outcomes.len() + 1
    &&& counted.len() == outcomes.len()
    &&& forall|i: int|
        0 <= i < outcomes.len() ==> ran(
            #[trigger] runs[i],
            outcomes[i],
            counted[i],
            runs[i + 1],
        )
}

/// How many of the tasks count.
pub open spec fn counted_tasks(counted: Seq<bool>) -> nat
    decreases counted.len(),
{
    if counted.len() == 0 {
        0
    } else {
        counted_tasks(counted.drop_last()) + if counted.last() {
            1nat
        } else {
            0nat
        }
    }
}

/// The patches of all outcomes, in order.
pub open spec fn all_patches<E>(outcomes: Seq<TaskOutcome<E>>) -> Seq<String>
    decreases outcomes.len(),
{
    if outcomes.len() == 0 {
        Seq::empty()
    } else {
        all_patches(outcomes.drop_last()) + patches_of(outcomes.last())
    }
}

/// A task is handed the number of tasks before it that count, and a run gathers the patches of
/// all its tasks in order.
pub proof fn law_task_run<E>(
    runs: Seq<TaskRun>,
    outcomes: Seq<TaskOutcome<E>>,
    counted: Seq<bool>,
)
    requires
        is_task_run(runs, outcomes, counted),
        runs[0].done == 0,
        runs[0].index == 0,
        runs[0].patches@ == Seq::<String>::empty(),
    ensures
        runs.last().total == runs[0].total,
        runs.last().done == outcomes.len(),
        runs.last().index == counted_tasks(counted),
        runs.last().patches@ == all_patches(outcomes),
    decreases outcomes.len(),
{
    if outcomes.len() > 0 {
        let n = outcomes.len() - 1;
        let shorter = runs.drop_last();
        assert forall|i: int| 0 <= i < outcomes.drop_last().len() implies ran(
            #[trigger] shorter[i],
            outcomes.drop_last()[i],
            counted.drop_last()[i],
            shorter[i + 1],
        ) by {
            assert(shorter[i] == runs[i]);
            assert(shorter[i + 1] == runs[i + 1]);
        }
        law_task_run(shorter, outcomes.drop_last(), counted.drop_last());
        assert(shorter.last() == runs[n]);
        assert(ran(runs[n], outcomes[n], counted[n], runs[n + 1]));
    }
}

/// The directory that tests look for cloud credentials in: one that does not exist, named after
/// the process, so that a run never sees those of its developer.
pub fn test_cloud_config_dir(
    temp_dir: &FsPath,
    process_id: u32,
    platform: Platform,
) -> (r: FsPath)
    ensures
        r@ == joined_text(
            platform,
            temp_dir@,
            "dbt-test-no-cloud-config-"@ + decimal(process_id as nat),
        ),
{
    let number: String = decimal_text(process_id);
    let name: String = concat("dbt-test-no-cloud-config-", number.as_str());
    temp_dir.join_text_on(name.as_str(), platform)
}

/// The variable that switches testing of the query cache on.
pub const QUERY_CACHE_VAR: &'static str = "DBT_TEST_QUERY_CACHE";

/// The variables as texts.
pub open spec fn assignments(v: Seq<(&str, &str)>) -> Seq<(Seq<char>, Seq<char>)> {
    v.map_values(|a: (&str, &str)| (a.0@, a.1@))
}

/// The variables that tasks run with: those given, and behind them that of the query cache
/// where it is `1` outside.
pub fn task_environment<'a>(set_env: &[(&'a str, &'a str)], query_cache: Option<&str>) -> (r: Vec<
    (&'a str, &'a str),
>)
    ensures
        assignments(r@) == if crate::config::opt_str(query_cache) == Some("1"@) {
            assignments(set_env@).push((QUERY_CACHE_VAR@, "1"@))
        } else {
            assignments(set_env@)
        },
{
    let mut r: Vec<(&'a str, &'a str)> = Vec::new();
    let mut i: usize = 0;
    while i < set_env.len()
        invariant
            i <= set_env@.len(),
            r@ == set_env@.take(i as int),
        decreases set_env@.len() - i,
    {
        r.push(set_env[i]);
        i += 1;
        assert(r@ =~= set_env@.take(i as int));
    }
    assert(r@ =~= set_env@);
    let enabled: bool = match query_cache {
        Some(value) => same_text(value, "1"),
        None => false,
    };
    if enabled {
        r.push((QUERY_CACHE_VAR, "1"));
        assert(assignments(r@) =~= assignments(set_env@).push((QUERY_CACHE_VAR@, "1"@)));
    }
    r
}

/// The fallback trace of all tests, the same for each so that their output can be reproduced.
pub const TEST_TRACE_ID: u128 = 1;

/// Sets tracing up for tests: at full verbosity, without layers, under the fallback trace of
/// all tests. Tasks install their own layers.
pub fn init_tracing_for_tests<
    A,
    D,
    P,
    H,
    E,
    FD: FnOnce(u128, Option<u64>, bool) -> (D, H),
    FA: FnOnce(&'static str) -> A,
    FI: FnOnce(LevelFilter, A, D, Vec<&'static str>) -> Result<P, E>,
>(debug_build: bool, make_layer: FD, attributes: FA, init: FI) -> (r: Result<
    ProcessTracing<P, H>,
    E,
>)
    requires
        forall|id: u128, span: Option<u64>, strip: bool| make_layer.requires((id, span, strip)),
        forall|p: &'static str| attributes.requires((p,)),
        forall|level: LevelFilter, a: A, d: D, v: Vec<&'static str>|
            init.requires((level, a, d, v)),
    ensures
        initialized_reloadable(
            crate::command::DBT_TESTS_PACKAGE,
            TEST_TRACE_ID,
            LevelFilter::Trace,
            debug_build,
            make_layer,
            attributes,
            init,
            r,
        ),
{
    init_tracing_reloadable(
        crate::command::DBT_TESTS_PACKAGE,
        TEST_TRACE_ID,
        LevelFilter::Trace,
        debug_build,
        make_layer,
        attributes,
        init,
    )
}

} // verus!
