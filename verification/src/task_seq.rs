//! Sequences of test tasks: how they are put together and named.

use crate::path::FsPath;
use crate::text::last_piece;
use crate::text::replace;
use crate::text::replaced;
use crate::text::same_text;
use crate::utils::strip_full_test_name;
use crate::utils::NAME_SEPARATOR;
use vstd::prelude::*;

verus! {

/// A task of a sequence. `T` stands for tasks of any kind, `F` for functions that serve as
/// tasks.
#[derive(Debug)]
pub enum TaskKind<T, F> {
    /// A task of any kind.
    Custom(T),
    /// A function.
    Function(F),
    /// A shell command, under the name of the test.
    Sh { name: String, cmd: Vec<String> },
    /// Touches a file.
    Touch { path: String },
    /// Writes a file.
    WriteFile { file_path: String, content: String },
    /// Removes a file.
    RmFile { path: String },
}

/// What a [`TaskKind`] says.
pub enum TaskView<T, F> {
    Custom(T),
    Function(F),
    Sh { name: Seq<char>, cmd: Seq<Seq<char>> },
    Touch { path: Seq<char> },
    WriteFile { file_path: Seq<char>, content: Seq<char> },
    RmFile { path: Seq<char> },
}

/// The views of some texts.
pub open spec fn texts(v: Seq<String>) -> Seq<Seq<char>> {
    v.map_values(|s: String| s@)
}

/// The views of some borrowed texts.
pub open spec fn borrowed_texts(v: Seq<&str>) -> Seq<Seq<char>> {
    v.map_values(|s: &str| s@)
}

impl<T, F> View for TaskKind<T, F> {
    type V = TaskView<T, F>;

    open spec fn view(&self) -> TaskView<T, F> {
        match *self {
            TaskKind::Custom(t) => TaskView::Custom(t),
            TaskKind::Function(f) => TaskView::Function(f),
            TaskKind::Sh { name, cmd } => TaskView::Sh { name: name@, cmd: texts(cmd@) },
            TaskKind::Touch { path } => TaskView::Touch { path: path@ },
            TaskKind::WriteFile { file_path, content } => TaskView::WriteFile {
                file_path: file_path@,
                content: content@,
            },
            TaskKind::RmFile { path } => TaskView::RmFile { path: path@ },
        }
    }
}

/// A sequence of tasks. They are run lazily, and can be run more than once.
#[derive(Debug)]
pub struct TaskSeq<T, F> {
    name: String,
    full_name: String,
    tasks: Vec<TaskKind<T, F>>,
}

/// What a [`TaskSeq`] says.
pub struct TaskSeqView<T, F> {
    pub name: Seq<char>,
    pub full_name: Seq<char>,
    pub tasks: Seq<TaskView<T, F>>,
}

impl<T, F> TaskSeqView<T, F> {
    /// The short name is the last part of the full one.
    pub open spec fn well_formed(self) -> bool {
        self.name == last_piece(self.full_name, NAME_SEPARATOR@, 0)
    }

    /// The sequence with one more task behind the others.
    pub open spec fn with_task(self, task: TaskView<T, F>) -> Self {
        TaskSeqView { tasks: self.tasks.push(task), ..self }
    }
}

impl<T, F> View for TaskSeq<T, F> {
    type V = TaskSeqView<T, F>;

    closed spec fn view(&self) -> TaskSeqView<T, F> {
        TaskSeqView {
            name: self.name@,
            full_name: self.full_name@,
            tasks: self.tasks@.map_values(|t: TaskKind<T, F>| t@),
        }
    }
}

/// The text of the path of a test: its full name, with `/` between the parts.
pub open spec fn unique_text(full_name: Seq<char>) -> Seq<char> {
    replaced(full_name, NAME_SEPARATOR@, "/"@, 0)
}

impl<T, F> TaskSeq<T, F> {
    /// An empty sequence for the test with the given full name.
    pub fn new(full_test_name: String) -> (r: Self)
        ensures
            r@.full_name == full_test_name@,
            r@.tasks == Seq::<TaskView<T, F>>::empty(),
            r@.well_formed(),
    {
        let name: String = strip_full_test_name(full_test_name.as_str());
        let r: TaskSeq<T, F> = TaskSeq { name, full_name: full_test_name, tasks: Vec::new() };
        assert(r@.tasks =~= Seq::<TaskView<T, F>>::empty());
        r
    }

    /// The name of the test.
    pub fn name(&self) -> (r: &str)
        ensures
            r@ == self@.name,
    {
        self.name.as_str()
    }

    /// The tasks, in order.
    pub fn tasks(&self) -> (r: &Vec<TaskKind<T, F>>)
        ensures
            r@.map_values(|t: TaskKind<T, F>| t@) == self@.tasks,
    {
        &self.tasks
    }

    /// A path of its own for this test.
    pub fn unique_path(&self) -> (r: FsPath)
        ensures
            r@ == vstd::utf8::encode_utf8(unique_text(self@.full_name)),
    {
        proof {
            reveal_strlit("::");
        }
        let text: String = replace(self.full_name.as_str(), NAME_SEPARATOR, "/");
        FsPath::from_text(text.as_str())
    }

    /// Adds a task. This can be used to inspect what the tasks before it left behind.
    pub fn task(&mut self, task: TaskKind<T, F>) -> (r: &mut Self)
        ensures
            r@ == old(self)@.with_task(task@),
            *final(self) == *final(r),
    {
        self.tasks.push(task);
        assert(self@.tasks =~= old(self)@.with_task(task@).tasks);
        self
    }

    /// Adds a function as a task.
    pub fn task_fn(&mut self, func: F) -> (r: &mut Self)
        ensures
            r@ == old(self)@.with_task(TaskView::Function(func)),
            *final(self) == *final(r),
    {
        self.task(TaskKind::Function(func))
    }

    /// Adds a task that runs a shell command. Such a task depends on the platform.
    pub fn sh(&mut self, cmd_vec: &[&str]) -> (r: &mut Self)
        ensures
            r@ == old(self)@.with_task(
                TaskView::Sh { name: old(self)@.name, cmd: borrowed_texts(cmd_vec@) },
            ),
            *final(self) == *final(r),
    {
        let name: String = self.name.as_str().to_owned();
        let cmd: Vec<String> = owned_texts(cmd_vec);
        self.task(TaskKind::Sh { name, cmd })
    }

    /// Adds a task that touches a file.
    pub fn touch(&mut self, path: String) -> (r: &mut Self)
        ensures
            r@ == old(self)@.with_task(TaskView::Touch { path: path@ }),
            *final(self) == *final(r),
    {
        self.task(TaskKind::Touch { path })
    }

    /// Adds a task that writes `content` to a file.
    pub fn write_file(&mut self, file_path: String, content: String) -> (r: &mut Self)
        ensures
            r@ == old(self)@.with_task(
                TaskView::WriteFile { file_path: file_path@, content: content@ },
            ),
            *final(self) == *final(r),
    {
        self.task(TaskKind::WriteFile { file_path, content })
    }

    /// Adds a task that removes a file.
    pub fn rm_file(&mut self, path: String) -> (r: &mut Self)
        ensures
            r@ == old(self)@.with_task(TaskView::RmFile { path: path@ }),
            *final(self) == *final(r),
    {
        self.task(TaskKind::RmFile { path })
    }
}

/// Copies of some texts.
fn owned_texts(v: &[&str]) -> (r: Vec<String>)
    ensures
        texts(r@) == borrowed_texts(v@),
{
    let mut r: Vec<String> = Vec::new();
    let mut i: usize = 0;
    while i < v.len()
        invariant
            i <= v@.len(),
            r@.len() == i,
            forall|j: int| 0 <= j < i ==> (#[trigger] r@[j])@ == v@[j]@,
        decreases v@.len() - i,
    {
        r.push(v[i].to_owned());
        i += 1;
    }
    assert(texts(r@) =~= borrowed_texts(v@));
    r
}

/// The command line for the parts of a command: `fs` goes before them, and `--show progress`
/// behind them unless they hold `--show`.
pub open spec fn fs_command(parts: Seq<Seq<char>>) -> Seq<Seq<char>> {
    if parts.contains("--show"@) {
        seq!["fs"@] + parts
    } else {
        seq!["fs"@] + parts + seq!["--show"@, "progress"@]
    }
}

/// The command line for the parts of a command.
pub fn fs_cmd_from_parts(parts: Vec<String>) -> (r: Vec<String>)
    ensures
        texts(r@) == fs_command(texts(parts@)),
{
    let mut shown: bool = false;
    let mut i: usize = 0;
    while i < parts.len()
        invariant
            i <= parts@.len(),
            shown == exists|j: int| 0 <= j < i && (#[trigger] parts@[j])@ == "--show"@,
        decreases parts@.len() - i,
    {
        if same_text(parts[i].as_str(), "--show") {
            shown = true;
        }
        i += 1;
    }
    proof {
        if shown {
            let j = choose|j: int| 0 <= j < parts@.len() && (#[trigger] parts@[j])@ == "--show"@;
            assert(texts(parts@)[j] == "--show"@);
        } else if texts(parts@).contains("--show"@) {
            let j = choose|j: int| 0 <= j < parts@.len() && texts(parts@)[j] == "--show"@;
            assert(parts@[j]@ == "--show"@);
        }
    }
    let mut r: Vec<String> = Vec::new();
    r.push("fs".to_owned());
    let mut rest: Vec<String> = parts;
    r.append(&mut rest);
    assert(texts(r@) =~= seq!["fs"@] + texts(parts@));
    if !shown {
        r.push("--show".to_owned());
        r.push("progress".to_owned());
        assert(texts(r@) =~= fs_command(texts(parts@)));
    }
    r
}

/// The command line for a command. `split` takes the command apart at white space, keeping
/// what stands in brackets together.
pub fn fs_cmd_vec<S: FnOnce(&str) -> Vec<String>>(cmd: &str, split: S) -> (r: Vec<String>)
    requires
        split.requires((cmd,)),
    ensures
        exists|parts: Vec<String>| #[trigger]
            split.ensures((cmd,), parts) && texts(r@) == fs_command(texts(parts@)),
{
    let parts: Vec<String> = split(cmd);
    fs_cmd_from_parts(parts)
}

} // verus!
