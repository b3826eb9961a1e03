//! Walking through the files of a directory and of the directories in it.

use crate::path::FsPath;
use vstd::prelude::*;

verus! {

/// What reading the innermost open directory gave.
#[derive(Debug)]
pub enum WalkEvent {
    /// An entry; whether it is a directory is known.
    Entry { path: FsPath, is_dir: bool },
    /// There are no more entries.
    End,
}

/// What a [`WalkEvent`] says.
pub enum EventView {
    Entry { path: Seq<u8>, is_dir: bool },
    End,
}

impl View for WalkEvent {
    type V = EventView;

    open spec fn view(&self) -> EventView {
        match *self {
            WalkEvent::Entry { path, is_dir } => EventView::Entry { path: path@, is_dir },
            WalkEvent::End => EventView::End,
        }
    }
}

/// What to do next.
#[derive(Debug)]
pub enum WalkAction {
    /// Open a directory and read it.
    Open { dir: FsPath },
    /// Hand a file to the handler, then read on.
    Handle { file: FsPath },
    /// Close the innermost directory, then read on in the one around it.
    Close,
}

/// What a [`WalkAction`] says.
pub enum ActionView {
    Open { dir: Seq<u8> },
    Handle { file: Seq<u8> },
    Close,
}

impl View for WalkAction {
    type V = ActionView;

    open spec fn view(&self) -> ActionView {
        match *self {
            WalkAction::Open { dir } => ActionView::Open { dir: dir@ },
            WalkAction::Handle { file } => ActionView::Handle { file: file@ },
            WalkAction::Close => ActionView::Close,
        }
    }
}

/// What an event calls for.
pub open spec fn action_for(event: EventView) -> ActionView {
    match event {
        EventView::Entry { path, is_dir: true } => ActionView::Open { dir: path },
        EventView::Entry { path, is_dir: false } => ActionView::Handle { file: path },
        EventView::End => ActionView::Close,
    }
}

/// The open directories after an event, the innermost last.
pub open spec fn open_after(open: Seq<Seq<u8>>, event: EventView) -> Seq<Seq<u8>> {
    match event {
        EventView::Entry { path, is_dir: true } => open.push(path),
        EventView::Entry { path, is_dir: false } => open,
        EventView::End => open.drop_last(),
    }
}

/// A walk: the directories that are open, the innermost last.
#[derive(Debug)]
pub struct FileWalk {
    open: Vec<FsPath>,
}

impl View for FileWalk {
    type V = Seq<Seq<u8>>;

    closed spec fn view(&self) -> Seq<Seq<u8>> {
        self.open@.map_values(|p: FsPath| p@)
    }
}

impl FileWalk {
    /// A walk through `root`, which is open.
    pub fn start(root: FsPath) -> (r: FileWalk)
        ensures
            r@ == seq![root@],
    {
        let r: FileWalk = FileWalk { open: vec![root] };
        assert(r@ =~= seq![root@]);
        r
    }

    /// Whether all directories have been read.
    pub fn is_over(&self) -> (r: bool)
        ensures
            r == (self@.len() == 0),
    {
        self.open.len() == 0
    }

    /// Takes what reading the innermost open directory gave.
    pub fn advance(&mut self, event: WalkEvent) -> (r: WalkAction)
        requires
            old(self)@.len() > 0,
        ensures
            r@ == action_for(event@),
            final(self)@ == open_after(old(self)@, event@),
    {
        match event {
            WalkEvent::Entry { path, is_dir } => if is_dir {
                self.open.push(path.clone());
                assert(self@ =~= open_after(old(self)@, event@));
                WalkAction::Open { dir: path }
            } else {
                WalkAction::Handle { file: path }
            },
            WalkEvent::End => {
                let _ = self.open.pop();
                assert(self@ =~= open_after(old(self)@, event@));
                WalkAction::Close
            },
        }
    }
}

/// An entry of a directory, with all that is in it.
pub enum Tree {
    File { path: Seq<u8> },
    Dir { path: Seq<u8>, entries: Seq<Tree> },
}

/// The files among some entries and in the directories among them, in order.
pub open spec fn files_of(entries: Seq<Tree>) -> Seq<Seq<u8>>
    decreases entries,
{
    if entries.len() == 0 {
        Seq::empty()
    } else {
        (match entries[0] {
            Tree::File { path } => seq![path],
            Tree::Dir { entries: inner, .. } => files_of(inner),
        }) + files_of(entries.subrange(1, entries.len() as int))
    }
}

/// What reading some entries gives, where each directory is read as soon as it is met.
pub open spec fn events_of(entries: Seq<Tree>) -> Seq<EventView>
    decreases entries,
{
    if entries.len() == 0 {
        Seq::empty()
    } else {
        (match entries[0] {
            Tree::File { path } => seq![EventView::Entry { path, is_dir: false }],
            Tree::Dir { path, entries: inner } => seq![EventView::Entry { path, is_dir: true }]
                + events_of(inner) + seq![EventView::End],
        }) + events_of(entries.subrange(1, entries.len() as int))
    }
}

/// The open directories after some events.
pub open spec fn open_after_all(open: Seq<Seq<u8>>, events: Seq<EventView>) -> Seq<Seq<u8>>
    decreases events.len(),
{
    if events.len() == 0 {
        open
    } else {
        open_after(open_after_all(open, events.drop_last()), events.last())
    }
}

/// The files that are handed to the handler on some events.
pub open spec fn handled(events: Seq<EventView>) -> Seq<Seq<u8>>
    decreases events.len(),
{
    if events.len() == 0 {
        Seq::empty()
    } else {
        match action_for(events.last()) {
            ActionView::Handle { file } => handled(events.drop_last()).push(file),
            _ => handled(events.drop_last()),
        }
    }
}

proof fn lemma_walk_concat(open: Seq<Seq<u8>>, a: Seq<EventView>, b: Seq<EventView>)
    ensures
        open_after_all(open, a + b) == open_after_all(open_after_all(open, a), b),
        handled(a + b) == handled(a) + handled(b),
    decreases b.len(),
{
    if b.len() == 0 {
        assert(a + b =~= a);
    } else {
        lemma_walk_concat(open, a, b.drop_last());
        assert((a + b).drop_last() =~= a + b.drop_last());
        assert(handled(a + b) =~= handled(a) + handled(b));
    }
}

proof fn lemma_walk_one(open: Seq<Seq<u8>>, event: EventView)
    ensures
        open_after_all(open, seq![event]) == open_after(open, event),
        handled(seq![event]) == (match action_for(event) {
            ActionView::Handle { file } => seq![file],
            _ => Seq::empty(),
        }),
{
    let one = seq![event];
    assert(one.drop_last() =~= Seq::empty());
    assert(one.last() == event);
    assert(open_after_all(open, one.drop_last()) == open);
    assert(handled(one.drop_last()) =~= Seq::<Seq<u8>>::empty());
    assert(handled(one) =~= (match action_for(event) {
        ActionView::Handle { file } => seq![file],
        _ => Seq::empty(),
    }));
}

/// Reading some entries hands out each of their files once, in order, those of a directory in
/// its place, and leaves open what was open before.
pub proof fn law_walk_handles_files(open: Seq<Seq<u8>>, entries: Seq<Tree>)
    ensures
        handled(events_of(entries)) == files_of(entries),
        open_after_all(open, events_of(entries)) == open,
    decreases entries,
{
    if entries.len() > 0 {
        let rest = entries.subrange(1, entries.len() as int);
        law_walk_handles_files(open, rest);
        match entries[0] {
            Tree::File { path } => {
                let first = EventView::Entry { path, is_dir: false };
                lemma_walk_one(open, first);
                lemma_walk_concat(open, seq![first], events_of(rest));
            },
            Tree::Dir { path, entries: inner } => {
                let first = EventView::Entry { path, is_dir: true };
                let inside = open.push(path);
                law_walk_handles_files(inside, inner);
                lemma_walk_one(open, first);
                lemma_walk_concat(open, seq![first], events_of(inner));
                lemma_walk_one(inside, EventView::End);
                lemma_walk_concat(open, seq![first] + events_of(inner), seq![EventView::End]);
                lemma_walk_concat(
                    open,
                    seq![first] + events_of(inner) + seq![EventView::End],
                    events_of(rest),
                );
                assert(inside.drop_last() =~= open);
                assert(handled(events_of(entries)) =~= files_of(entries));
            },
        }
    }
}

/// A walk through a directory still has the directory open when all its entries are read, and is
/// over once its end is read. Every file was then handed out once.
pub proof fn law_walk_ends(root: Seq<u8>, entries: Seq<Tree>)
    ensures
        open_after_all(seq![root], events_of(entries)) == seq![root],
        open_after_all(seq![root], events_of(entries).push(EventView::End)).len() == 0,
        handled(events_of(entries).push(EventView::End)) == files_of(entries),
{
    law_walk_handles_files(seq![root], entries);
    let all = events_of(entries).push(EventView::End);
    assert(all.drop_last() =~= events_of(entries));
    assert(all.last() == EventView::End);
}

} // verus!
