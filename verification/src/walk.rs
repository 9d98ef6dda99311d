//! The directory walk: depth first, directories before their entries, with
//! an optional depth limit and optional following of symbolic links.
//!
//! The library does not touch the file system. The walk is a machine,
//! [`Walker`]: each step hands out one thing to do, and the next step takes
//! the answer. What is handed out is either an event for the visitor, a
//! question to the ignore filter, or a call to make on the file system.
//! The caller's loop feeds the machine until it says it is done.

use vstd::prelude::*;
use vstd::hash_set::StringHashSet;
use crate::error::{Failure, FsError};
use crate::filter::PathFilter;

verus! {

/// What a directory entry is, as one probe that follows no link tells.
#[derive(Clone, Copy, Debug, PartialEq, Eq, Structural)]
pub enum EntryKind {
    File,
    Directory,
    Symlink,
    /// Anything else, such as a socket or a device: the walk passes it by.
    Other,
}

/// What the walk knows of an entry besides its path.
#[derive(Clone, Copy, Debug, PartialEq, Eq, Structural)]
pub struct EntryMeta {
    pub kind: EntryKind,
    /// The size in bytes; of interest for files.
    pub size: u64,
}

impl EntryMeta {
    /// Whether the entry is a directory.
    pub fn is_dir(&self) -> (r: bool)
        ensures
            r == (self.kind is Directory),
    {
        match self.kind {
            EntryKind::Directory => true,
            _ => false,
        }
    }

    /// Whether the entry is a file.
    pub fn is_file(&self) -> (r: bool)
        ensures
            r == (self.kind is File),
    {
        match self.kind {
            EntryKind::File => true,
            _ => false,
        }
    }

    /// Whether the entry is a symbolic link.
    pub fn is_symlink(&self) -> (r: bool)
        ensures
            r == (self.kind is Symlink),
    {
        match self.kind {
            EntryKind::Symlink => true,
            _ => false,
        }
    }

    /// The size in bytes.
    pub fn len(&self) -> (r: u64)
        ensures
            r == self.size,
    {
        self.size
    }
}

/// Receives the events of a walk, in the order in which they arise.
pub trait FsVisitor {
    fn visit_file(&mut self, path: &str, meta: &EntryMeta, depth: usize);

    fn enter_dir(&mut self, path: &str, meta: &EntryMeta, depth: usize);

    fn exit_dir(&mut self, path: &str, meta: &EntryMeta, depth: usize);

    fn visit_symlink(&mut self, path: &str, depth: usize);

    fn on_error(&mut self, error: FsError);
}

/// One entry of a directory listing: what was found, or why a probe failed.
#[derive(Debug)]
pub enum Probe {
    Found { path: String, meta: EntryMeta },
    Failed(FsError),
}

impl Probe {
    /// An entry that was found.
    pub fn found(path: String, meta: EntryMeta) -> (r: Probe)
        ensures
            r@ == (Entry::Found { path: path@, meta }),
    {
        Probe::Found { path, meta }
    }

    /// An entry of the directory `dir` that could not be read, so that not
    /// even its name is known: the failure goes under the path of the
    /// directory.
    pub fn unread(dir: &str, cause: std::io::Error) -> (r: Probe)
        ensures
            r@ == Entry::Failed(Failure::Io(dir@, cause)),
    {
        Probe::Failed(FsError::Io(dir.to_owned(), cause))
    }

    /// An entry whose probe failed: the failure goes under the path of the
    /// entry.
    pub fn unprobed(path: String, cause: std::io::Error) -> (r: Probe)
        ensures
            r@ == Entry::Failed(Failure::Io(path@, cause)),
    {
        Probe::Failed(FsError::Io(path, cause))
    }
}

/// An event for the visitor.
#[derive(Debug)]
pub enum WalkEvent {
    VisitFile { path: String, meta: EntryMeta, depth: usize },
    EnterDir { path: String, meta: EntryMeta, depth: usize },
    ExitDir { path: String, meta: EntryMeta, depth: usize },
    VisitSymlink { path: String, depth: usize },
    Error(FsError),
}

/// What a step of the walk hands out.
#[derive(Debug)]
pub enum WalkStep {
    /// Hand this event to the visitor; the next step needs no answer.
    Emit(WalkEvent),
    /// Ask the filter whether this path is ignored; answer with `Verdict`.
    Consult { path: String, is_dir: bool },
    /// List this directory and probe each entry, following no link; answer
    /// with `Listing` or `ListFailed`.
    ListDir { path: String },
    /// Resolve this path to its canonical form; answer with `Resolved` or
    /// `ResolveFailed`.
    Resolve { path: String },
    /// Probe this path, following links; answer with `Stat` or `StatFailed`.
    Stat { path: String },
    /// The walk is over.
    Done,
}

/// What a step of the walk takes: the answer to what the step before
/// handed out.
#[derive(Debug)]
pub enum WalkReply {
    /// No answer: at the start, and after an event.
    Nothing,
    Verdict(bool),
    Listing(Vec<Probe>),
    ListFailed(std::io::Error),
    Resolved(String),
    ResolveFailed(std::io::Error),
    Stat(EntryMeta),
    StatFailed(std::io::Error),
}

/// An entry of a listing as the contracts see it.
pub enum Entry {
    Found { path: Seq<char>, meta: EntryMeta },
    Failed(Failure),
}

impl View for Probe {
    type V = Entry;

    open spec fn view(&self) -> Entry {
        match *self {
            Probe::Found { path, meta } => Entry::Found { path: path@, meta },
            Probe::Failed(error) => Entry::Failed(error@),
        }
    }
}

/// The views of the entries of a listing.
pub open spec fn entry_views(probes: Seq<Probe>) -> Seq<Entry> {
    probes.map_values(|p: Probe| p@)
}

/// An event as the contracts see it.
pub enum Event {
    VisitFile { path: Seq<char>, meta: EntryMeta, depth: usize },
    EnterDir { path: Seq<char>, meta: EntryMeta, depth: usize },
    ExitDir { path: Seq<char>, meta: EntryMeta, depth: usize },
    VisitSymlink { path: Seq<char>, depth: usize },
    Error(Failure),
}

impl View for WalkEvent {
    type V = Event;

    open spec fn view(&self) -> Event {
        match *self {
            WalkEvent::VisitFile { path, meta, depth } => Event::VisitFile {
                path: path@,
                meta,
                depth,
            },
            WalkEvent::EnterDir { path, meta, depth } => Event::EnterDir {
                path: path@,
                meta,
                depth,
            },
            WalkEvent::ExitDir { path, meta, depth } => Event::ExitDir {
                path: path@,
                meta,
                depth,
            },
            WalkEvent::VisitSymlink { path, depth } => Event::VisitSymlink { path: path@, depth },
            WalkEvent::Error(error) => Event::Error(error@),
        }
    }
}

/// What a step hands out, as the contracts see it.
pub enum Step {
    Emit(Event),
    Consult { path: Seq<char>, is_dir: bool },
    ListDir { path: Seq<char> },
    Resolve { path: Seq<char> },
    Stat { path: Seq<char> },
    Done,
}

impl View for WalkStep {
    type V = Step;

    open spec fn view(&self) -> Step {
        match *self {
            WalkStep::Emit(event) => Step::Emit(event@),
            WalkStep::Consult { path, is_dir } => Step::Consult { path: path@, is_dir },
            WalkStep::ListDir { path } => Step::ListDir { path: path@ },
            WalkStep::Resolve { path } => Step::Resolve { path: path@ },
            WalkStep::Stat { path } => Step::Stat { path: path@ },
            WalkStep::Done => Step::Done,
        }
    }
}

/// What a step takes, as the contracts see it.
pub enum Reply {
    Nothing,
    Verdict(bool),
    Listing(Seq<Entry>),
    ListFailed(std::io::Error),
    Resolved(Seq<char>),
    ResolveFailed(std::io::Error),
    Stat(EntryMeta),
    StatFailed(std::io::Error),
}

impl View for WalkReply {
    type V = Reply;

    open spec fn view(&self) -> Reply {
        match *self {
            WalkReply::Nothing => Reply::Nothing,
            WalkReply::Verdict(ignored) => Reply::Verdict(ignored),
            WalkReply::Listing(probes) => Reply::Listing(entry_views(probes@)),
            WalkReply::ListFailed(cause) => Reply::ListFailed(cause),
            WalkReply::Resolved(path) => Reply::Resolved(path@),
            WalkReply::ResolveFailed(cause) => Reply::ResolveFailed(cause),
            WalkReply::Stat(meta) => Reply::Stat(meta),
            WalkReply::StatFailed(cause) => Reply::StatFailed(cause),
        }
    }
}

/// A directory that was entered and is owed its exit.
pub struct Entered {
    pub path: Seq<char>,
    pub meta: EntryMeta,
    pub depth: usize,
}

/// Where the walk stands between two steps.
pub enum Phase {
    /// Nothing was done yet.
    Start,
    /// The listing of the root was asked for.
    RootListing,
    /// Between two entries.
    Between,
    /// The filter was asked about an entry of the current directory.
    Verdict { path: Seq<char>, meta: EntryMeta },
    /// A directory's canonical path was asked for, to see whether it was
    /// entered before.
    DirIdentity { path: Seq<char>, meta: EntryMeta },
    /// The visitor was told that a directory is entered.
    Entered(Entered),
    /// The listing of a directory that was entered was asked for.
    Listing(Entered),
    /// The listing of a directory that was entered has failed; the visitor
    /// was told of the failure and is owed the exit.
    Leaving(Entered),
    /// The visitor was told of a symbolic link that is to be followed.
    LinkSeen { path: Seq<char> },
    /// The canonical path of a link's target was asked for.
    LinkTarget { path: Seq<char> },
    /// A link's target was registered and a probe of it was asked for.
    TargetMeta { target: Seq<char> },
    /// The filter was asked about a link's target.
    TargetVerdict { target: Seq<char>, meta: EntryMeta },
    /// The walk is over.
    Finished,
}

/// One directory whose entries are being gone through.
pub struct Level {
    /// The directory, owed its exit once the entries are done; `None` for
    /// the root, which is neither entered nor left.
    pub dir: Option<Entered>,
    /// The depth of the entries.
    pub depth: usize,
    /// The entries not yet gone through, in the order of the listing.
    pub pending: Seq<Entry>,
}

/// The state of a walk, as the contracts see it.
pub struct Walk {
    pub root: Seq<char>,
    /// Directories at this depth or beyond it are not listed.
    pub max_depth: usize,
    pub follow_symlinks: bool,
    pub phase: Phase,
    /// The directories being gone through, the root first.
    pub levels: Seq<Level>,
    /// The canonical paths registered so far.
    pub visited: Set<Seq<char>>,
}

/// The depth one level deeper than `depth`.
pub open spec fn deeper(depth: usize) -> usize {
    if depth < usize::MAX {
        (depth + 1) as usize
    } else {
        depth
    }
}

/// The depth of the entries of the directory being gone through.
pub open spec fn current_depth(w: Walk) -> usize {
    if w.levels.len() > 0 {
        w.levels.last().depth
    } else {
        1
    }
}

/// A walk that has not begun.
pub open spec fn initial(root: Seq<char>, max_depth: Option<usize>, follow_symlinks: bool) -> Walk {
    Walk {
        root,
        max_depth: match max_depth {
            Some(limit) => limit,
            None => usize::MAX,
        },
        follow_symlinks,
        phase: Phase::Start,
        levels: Seq::empty(),
        visited: Set::empty(),
    }
}

/// Going on with the directory being gone through. Its next entry is put
/// before the filter, or reported if its probe failed. With no entry left
/// the directory is left: the visitor is told of the exit, and behind the
/// root's last entry the walk is over.
pub open spec fn advance(w: Walk) -> (Walk, Step) {
    if w.levels.len() == 0 {
        (Walk { phase: Phase::Finished, ..w }, Step::Done)
    } else {
        let top = w.levels.last();
        if top.pending.len() == 0 {
            let outer = w.levels.drop_last();
            match top.dir {
                Some(dir) => (
                    Walk { phase: Phase::Between, levels: outer, ..w },
                    Step::Emit(
                        Event::ExitDir { path: dir.path, meta: dir.meta, depth: dir.depth },
                    ),
                ),
                None => (Walk { phase: Phase::Finished, levels: outer, ..w }, Step::Done),
            }
        } else {
            let rest = Level { pending: top.pending.drop_first(), ..top };
            let levels = w.levels.drop_last().push(rest);
            match top.pending.first() {
                Entry::Failed(error) => (
                    Walk { phase: Phase::Between, levels, ..w },
                    Step::Emit(Event::Error(error)),
                ),
                Entry::Found { path, meta } => (
                    Walk { phase: Phase::Verdict { path, meta }, levels, ..w },
                    Step::Consult { path, is_dir: meta.kind is Directory },
                ),
            }
        }
    }
}

/// Telling the visitor that a directory is entered.
pub open spec fn enter(w: Walk, path: Seq<char>, meta: EntryMeta) -> (Walk, Step) {
    let depth = current_depth(w);
    (
        Walk { phase: Phase::Entered(Entered { path, meta, depth }), ..w },
        Step::Emit(Event::EnterDir { path, meta, depth }),
    )
}

/// What is done with an entry that the filter lets pass, by its kind. A
/// file is shown to the visitor. So is a symbolic link, which is then
/// followed if links are. A directory is entered; if links are followed,
/// only once its canonical path was seen to be new.
pub open spec fn dispatch(w: Walk, path: Seq<char>, meta: EntryMeta) -> (Walk, Step) {
    match meta.kind {
        EntryKind::File => (
            Walk { phase: Phase::Between, ..w },
            Step::Emit(Event::VisitFile { path, meta, depth: current_depth(w) }),
        ),
        EntryKind::Symlink => (
            Walk {
                phase: if w.follow_symlinks {
                    Phase::LinkSeen { path }
                } else {
                    Phase::Between
                },
                ..w
            },
            Step::Emit(Event::VisitSymlink { path, depth: current_depth(w) }),
        ),
        EntryKind::Directory => if w.follow_symlinks {
            (Walk { phase: Phase::DirIdentity { path, meta }, ..w }, Step::Resolve { path })
        } else {
            enter(w, path, meta)
        },
        EntryKind::Other => advance(w),
    }
}

/// What is done with the target of a followed link that the filter lets
/// pass: it is treated as an entry met at the depth of the link, under its
/// own path. Its canonical path was registered when the link was resolved.
pub open spec fn dispatch_target(w: Walk, target: Seq<char>, meta: EntryMeta) -> (Walk, Step) {
    match meta.kind {
        EntryKind::File => (
            Walk { phase: Phase::Between, ..w },
            Step::Emit(Event::VisitFile { path: target, meta, depth: current_depth(w) }),
        ),
        EntryKind::Directory => enter(w, target, meta),
        _ => advance(w),
    }
}

/// One step of the walk: from the state and the answer to what the step
/// before handed out, to the next state and what is handed out now. An
/// answer of the wrong kind changes nothing, and the question is put again.
pub open spec fn next(w: Walk, reply: Reply) -> (Walk, Step) {
    match w.phase {
        Phase::Start => (
            Walk { phase: Phase::RootListing, ..w },
            Step::ListDir { path: w.root },
        ),
        Phase::RootListing => match reply {
            Reply::Listing(entries) => advance(
                Walk {
                    levels: w.levels.push(Level { dir: None, depth: 1, pending: entries }),
                    ..w
                },
            ),
            Reply::ListFailed(cause) => (
                Walk { phase: Phase::Finished, ..w },
                Step::Emit(Event::Error(Failure::Io(w.root, cause))),
            ),
            _ => (w, Step::ListDir { path: w.root }),
        },
        Phase::Between => advance(w),
        Phase::Verdict { path, meta } => match reply {
            Reply::Verdict(ignored) => if ignored {
                advance(w)
            } else {
                dispatch(w, path, meta)
            },
            _ => (w, Step::Consult { path, is_dir: meta.kind is Directory }),
        },
        Phase::DirIdentity { path, meta } => match reply {
            Reply::Resolved(canonical) => if w.visited.contains(canonical) {
                advance(w)
            } else {
                enter(Walk { visited: w.visited.insert(canonical), ..w }, path, meta)
            },
            Reply::ResolveFailed(cause) => (
                Walk { phase: Phase::Between, ..w },
                Step::Emit(Event::Error(Failure::Io(path, cause))),
            ),
            _ => (w, Step::Resolve { path }),
        },
        Phase::Entered(dir) => if dir.depth < w.max_depth {
            (Walk { phase: Phase::Listing(dir), ..w }, Step::ListDir { path: dir.path })
        } else {
            (
                Walk { phase: Phase::Between, ..w },
                Step::Emit(
                    Event::ExitDir { path: dir.path, meta: dir.meta, depth: dir.depth },
                ),
            )
        },
        Phase::Listing(dir) => match reply {
            Reply::Listing(entries) => advance(
                Walk {
                    levels: w.levels.push(
                        Level { dir: Some(dir), depth: deeper(dir.depth), pending: entries },
                    ),
                    ..w
                },
            ),
            Reply::ListFailed(cause) => (
                Walk { phase: Phase::Leaving(dir), ..w },
                Step::Emit(Event::Error(Failure::Io(dir.path, cause))),
            ),
            _ => (w, Step::ListDir { path: dir.path }),
        },
        Phase::Leaving(dir) => (
            Walk { phase: Phase::Between, ..w },
            Step::Emit(Event::ExitDir { path: dir.path, meta: dir.meta, depth: dir.depth }),
        ),
        Phase::LinkSeen { path } => (
            Walk { phase: Phase::LinkTarget { path }, ..w },
            Step::Resolve { path },
        ),
        Phase::LinkTarget { path } => match reply {
            Reply::Resolved(target) => if w.visited.contains(target) {
                advance(w)
            } else {
                (
                    Walk {
                        phase: Phase::TargetMeta { target },
                        visited: w.visited.insert(target),
                        ..w
                    },
                    Step::Stat { path: target },
                )
            },
            Reply::ResolveFailed(cause) => (
                Walk { phase: Phase::Between, ..w },
                Step::Emit(Event::Error(Failure::Io(path, cause))),
            ),
            _ => (w, Step::Resolve { path }),
        },
        Phase::TargetMeta { target } => match reply {
            Reply::Stat(meta) => (
                Walk { phase: Phase::TargetVerdict { target, meta }, ..w },
                Step::Consult { path: target, is_dir: meta.kind is Directory },
            ),
            Reply::StatFailed(cause) => (
                Walk { phase: Phase::Between, ..w },
                Step::Emit(Event::Error(Failure::Io(target, cause))),
            ),
            _ => (w, Step::Stat { path: target }),
        },
        Phase::TargetVerdict { target, meta } => match reply {
            Reply::Verdict(ignored) => if ignored {
                advance(w)
            } else {
                dispatch_target(w, target, meta)
            },
            _ => (w, Step::Consult { path: target, is_dir: meta.kind is Directory }),
        },
        Phase::Finished => (w, Step::Done),
    }
}

/// A directory that was entered and is owed its exit.
struct Dir {
    path: String,
    meta: EntryMeta,
    depth: usize,
}

impl View for Dir {
    type V = Entered;

    closed spec fn view(&self) -> Entered {
        Entered { path: self.path@, meta: self.meta, depth: self.depth }
    }
}

/// Where the walk stands between two steps.
enum PhaseData {
    Start,
    RootListing,
    Between,
    Verdict { path: String, meta: EntryMeta },
    DirIdentity { path: String, meta: EntryMeta },
    Entered(Dir),
    Listing(Dir),
    Leaving(Dir),
    LinkSeen { path: String },
    LinkTarget { path: String },
    TargetMeta { target: String },
    TargetVerdict { target: String, meta: EntryMeta },
    Finished,
}

impl View for PhaseData {
    type V = Phase;

    closed spec fn view(&self) -> Phase {
        match *self {
            PhaseData::Start => Phase::Start,
            PhaseData::RootListing => Phase::RootListing,
            PhaseData::Between => Phase::Between,
            PhaseData::Verdict { path, meta } => Phase::Verdict { path: path@, meta },
            PhaseData::DirIdentity { path, meta } => Phase::DirIdentity { path: path@, meta },
            PhaseData::Entered(dir) => Phase::Entered(dir@),
            PhaseData::Listing(dir) => Phase::Listing(dir@),
            PhaseData::Leaving(dir) => Phase::Leaving(dir@),
            PhaseData::LinkSeen { path } => Phase::LinkSeen { path: path@ },
            PhaseData::LinkTarget { path } => Phase::LinkTarget { path: path@ },
            PhaseData::TargetMeta { target } => Phase::TargetMeta { target: target@ },
            PhaseData::TargetVerdict { target, meta } => Phase::TargetVerdict {
                target: target@,
                meta,
            },
            PhaseData::Finished => Phase::Finished,
        }
    }
}

/// The view of a directory that may be owed its exit.
spec fn owed(dir: Option<Dir>) -> Option<Entered> {
    match dir {
        Some(dir) => Some(dir@),
        None => None,
    }
}

/// One directory being gone through. The entries are kept last first, so
/// that the next one is taken off the end.
struct Frame {
    dir: Option<Dir>,
    depth: usize,
    rest: Vec<Probe>,
}

impl View for Frame {
    type V = Level;

    closed spec fn view(&self) -> Level {
        Level { dir: owed(self.dir), depth: self.depth, pending: entry_views(self.rest@).reverse() }
    }
}

/// A walk in progress.
pub struct Walker {
    root: String,
    max_depth: usize,
    follow_symlinks: bool,
    phase: PhaseData,
    stack: Vec<Frame>,
    visited: StringHashSet,
}

impl View for Walker {
    type V = Walk;

    closed spec fn view(&self) -> Walk {
        Walk {
            root: self.root@,
            max_depth: self.max_depth,
            follow_symlinks: self.follow_symlinks,
            phase: self.phase@,
            levels: self.stack@.map_values(|f: Frame| f@),
            visited: self.visited@,
        }
    }
}

/// `entries` in reverse order.
fn reversed(entries: Vec<Probe>) -> (r: Vec<Probe>)
    ensures
        r@.reverse() == entries@,
        entry_views(r@).reverse() == entry_views(entries@),
{
    let mut entries = entries;
    let ghost all = entries@;
    let mut r: Vec<Probe> = Vec::new();
    while entries.len() > 0
        invariant
            entries@.len() + r@.len() == all.len(),
            forall|i: int| 0 <= i < entries@.len() ==> entries@[i] == all[i],
            forall|i: int| 0 <= i < r@.len() ==> r@[i] == all[all.len() - 1 - i],
        decreases entries.len(),
    {
        let last = entries.pop();
        if let Some(probe) = last {
            r.push(probe);
        }
    }
    assert(r@.reverse() =~= all);
    assert(entry_views(r@).reverse() =~= entry_views(all));
    r
}

impl Walker {
    /// A walk of the tree below `root`. Entries right below `root` have
    /// depth 1. Without `max_depth` the depth is not limited. With
    /// `follow_symlinks` the targets of symbolic links are visited too, and
    /// canonical paths are registered so that nothing is entered twice.
    pub fn new(root: &str, max_depth: Option<usize>, follow_symlinks: bool) -> (r: Self)
        ensures
            r@ == initial(root@, max_depth, follow_symlinks),
    {
        let walker = Walker {
            root: root.to_owned(),
            max_depth: max_depth.unwrap_or(usize::MAX),
            follow_symlinks,
            phase: PhaseData::Start,
            stack: Vec::new(),
            visited: StringHashSet::new(),
        };
        assert(walker@.levels =~= Seq::empty());
        walker
    }

    /// Whether the walk is over.
    pub fn is_finished(&self) -> (r: bool)
        ensures
            r == (self@.phase is Finished),
    {
        match self.phase {
            PhaseData::Finished => true,
            _ => false,
        }
    }

    /// The depth of the entries of the directory being gone through.
    fn depth(&self) -> (r: usize)
        ensures
            r == current_depth(self@),
    {
        let n = self.stack.len();
        if n > 0 {
            assert(self@.levels.last() == self.stack@[n - 1]@);
            self.stack[n - 1].depth
        } else {
            1
        }
    }

    /// Opens a level for the entries of a directory.
    fn open(&mut self, dir: Option<Dir>, depth: usize, entries: Vec<Probe>)
        ensures
            final(self)@ == (Walk {
                levels: old(self)@.levels.push(
                    Level { dir: owed(dir), depth, pending: entry_views(entries@) },
                ),
                ..old(self)@
            }),
    {
        let rest = reversed(entries);
        let frame = Frame { dir, depth, rest };
        self.stack.push(frame);
        assert(final(self)@.levels =~= old(self)@.levels.push(
            Level { dir: owed(dir), depth, pending: entry_views(entries@) },
        ));
    }

    /// Goes on with the directory being gone through.
    fn advance(&mut self) -> (out: WalkStep)
        ensures
            (final(self)@, out@) == advance(old(self)@),
    {
        let top = self.stack.pop();
        match top {
            None => {
                self.phase = PhaseData::Finished;
                assert(final(self)@.levels =~= old(self)@.levels);
                WalkStep::Done
            },
            Some(frame) => {
                let ghost level = frame@;
                assert(old(self)@.levels.last() == level);
                assert(self@.levels =~= old(self)@.levels.drop_last());
                let Frame { dir, depth, rest } = frame;
                let mut rest = rest;
                let ghost before = rest@;
                match rest.pop() {
                    None => {
                        assert(level.pending.len() == 0);
                        match dir {
                            Some(dir) => {
                                self.phase = PhaseData::Between;
                                WalkStep::Emit(
                                    WalkEvent::ExitDir {
                                        path: dir.path,
                                        meta: dir.meta,
                                        depth: dir.depth,
                                    },
                                )
                            },
                            None => {
                                self.phase = PhaseData::Finished;
                                WalkStep::Done
                            },
                        }
                    },
                    Some(probe) => {
                        assert(level.pending.len() > 0);
                        assert(level.pending.first() == probe@);
                        assert(entry_views(rest@).reverse() =~= level.pending.drop_first());
                        let shorter = Frame { dir, depth, rest };
                        self.stack.push(shorter);
                        assert(self@.levels =~= old(self)@.levels.drop_last().push(
                            Level { pending: level.pending.drop_first(), ..level },
                        ));
                        match probe {
                            Probe::Failed(error) => {
                                self.phase = PhaseData::Between;
                                WalkStep::Emit(WalkEvent::Error(error))
                            },
                            Probe::Found { path, meta } => {
                                let is_dir = meta.is_dir();
                                self.phase = PhaseData::Verdict { path: path.clone(), meta };
                                WalkStep::Consult { path, is_dir }
                            },
                        }
                    },
                }
            },
        }
    }

    /// Tells the visitor that a directory is entered.
    fn enter(&mut self, path: String, meta: EntryMeta) -> (out: WalkStep)
        ensures
            (final(self)@, out@) == enter(old(self)@, path@, meta),
    {
        let depth = self.depth();
        self.phase = PhaseData::Entered(Dir { path: path.clone(), meta, depth });
        WalkStep::Emit(WalkEvent::EnterDir { path, meta, depth })
    }

    /// Deals with an entry that the filter lets pass.
    fn dispatch(&mut self, path: String, meta: EntryMeta) -> (out: WalkStep)
        ensures
            (final(self)@, out@) == dispatch(old(self)@, path@, meta),
    {
        match meta.kind {
            EntryKind::File => {
                let depth = self.depth();
                self.phase = PhaseData::Between;
                WalkStep::Emit(WalkEvent::VisitFile { path, meta, depth })
            },
            EntryKind::Symlink => {
                let depth = self.depth();
                if self.follow_symlinks {
                    self.phase = PhaseData::LinkSeen { path: path.clone() };
                } else {
                    self.phase = PhaseData::Between;
                }
                WalkStep::Emit(WalkEvent::VisitSymlink { path, depth })
            },
            EntryKind::Directory => {
                if self.follow_symlinks {
                    self.phase = PhaseData::DirIdentity { path: path.clone(), meta };
                    WalkStep::Resolve { path }
                } else {
                    self.enter(path, meta)
                }
            },
            EntryKind::Other => self.advance(),
        }
    }

    /// Deals with the target of a followed link that the filter lets pass.
    fn dispatch_target(&mut self, target: String, meta: EntryMeta) -> (out: WalkStep)
        ensures
            (final(self)@, out@) == dispatch_target(old(self)@, target@, meta),
    {
        match meta.kind {
            EntryKind::File => {
                let depth = self.depth();
                self.phase = PhaseData::Between;
                WalkStep::Emit(WalkEvent::VisitFile { path: target, meta, depth })
            },
            EntryKind::Directory => self.enter(target, meta),
            _ => self.advance(),
        }
    }

    /// Takes the answer to what the step before handed out, and hands out
    /// what is to be done next.
    pub fn step(&mut self, reply: WalkReply) -> (out: WalkStep)
        ensures
            (final(self)@, out@) == next(old(self)@, reply@),
    {
        let mut phase = PhaseData::Between;
        core::mem::swap(&mut self.phase, &mut phase);
        match phase {
            PhaseData::Start => {
                self.phase = PhaseData::RootListing;
                WalkStep::ListDir { path: self.root.clone() }
            },
            PhaseData::RootListing => match reply {
                WalkReply::Listing(entries) => {
                    self.open(None, 1, entries);
                    self.advance()
                },
                WalkReply::ListFailed(cause) => {
                    self.phase = PhaseData::Finished;
                    WalkStep::Emit(WalkEvent::Error(FsError::Io(self.root.clone(), cause)))
                },
                _ => {
                    self.phase = PhaseData::RootListing;
                    WalkStep::ListDir { path: self.root.clone() }
                },
            },
            PhaseData::Between => self.advance(),
            PhaseData::Verdict { path, meta } => match reply {
                WalkReply::Verdict(ignored) => {
                    if ignored {
                        self.advance()
                    } else {
                        self.dispatch(path, meta)
                    }
                },
                _ => {
                    let is_dir = meta.is_dir();
                    self.phase = PhaseData::Verdict { path: path.clone(), meta };
                    WalkStep::Consult { path, is_dir }
                },
            },
            PhaseData::DirIdentity { path, meta } => match reply {
                WalkReply::Resolved(canonical) => {
                    if self.visited.contains(canonical.as_str()) {
                        self.advance()
                    } else {
                        self.visited.insert(canonical);
                        self.enter(path, meta)
                    }
                },
                WalkReply::ResolveFailed(cause) => {
                    self.phase = PhaseData::Between;
                    WalkStep::Emit(WalkEvent::Error(FsError::Io(path, cause)))
                },
                _ => {
                    self.phase = PhaseData::DirIdentity { path: path.clone(), meta };
                    WalkStep::Resolve { path }
                },
            },
            PhaseData::Entered(dir) => {
                if dir.depth < self.max_depth {
                    let path = dir.path.clone();
                    self.phase = PhaseData::Listing(dir);
                    WalkStep::ListDir { path }
                } else {
                    self.phase = PhaseData::Between;
                    WalkStep::Emit(
                        WalkEvent::ExitDir { path: dir.path, meta: dir.meta, depth: dir.depth },
                    )
                }
            },
            PhaseData::Listing(dir) => match reply {
                WalkReply::Listing(entries) => {
                    let depth: usize = if dir.depth < usize::MAX {
                        dir.depth + 1
                    } else {
                        dir.depth
                    };
                    self.open(Some(dir), depth, entries);
                    self.advance()
                },
                WalkReply::ListFailed(cause) => {
                    let path = dir.path.clone();
                    self.phase = PhaseData::Leaving(dir);
                    WalkStep::Emit(WalkEvent::Error(FsError::Io(path, cause)))
                },
                _ => {
                    let path = dir.path.clone();
                    self.phase = PhaseData::Listing(dir);
                    WalkStep::ListDir { path }
                },
            },
            PhaseData::Leaving(dir) => {
                self.phase = PhaseData::Between;
                WalkStep::Emit(
                    WalkEvent::ExitDir { path: dir.path, meta: dir.meta, depth: dir.depth },
                )
            },
            PhaseData::LinkSeen { path } => {
                self.phase = PhaseData::LinkTarget { path: path.clone() };
                WalkStep::Resolve { path }
            },
            PhaseData::LinkTarget { path } => match reply {
                WalkReply::Resolved(target) => {
                    if self.visited.contains(target.as_str()) {
                        self.advance()
                    } else {
                        self.visited.insert(target.clone());
                        self.phase = PhaseData::TargetMeta { target: target.clone() };
                        WalkStep::Stat { path: target }
                    }
                },
                WalkReply::ResolveFailed(cause) => {
                    self.phase = PhaseData::Between;
                    WalkStep::Emit(WalkEvent::Error(FsError::Io(path, cause)))
                },
                _ => {
                    self.phase = PhaseData::LinkTarget { path: path.clone() };
                    WalkStep::Resolve { path }
                },
            },
            PhaseData::TargetMeta { target } => match reply {
                WalkReply::Stat(meta) => {
                    let is_dir = meta.is_dir();
                    self.phase = PhaseData::TargetVerdict { target: target.clone(), meta };
                    WalkStep::Consult { path: target, is_dir }
                },
                WalkReply::StatFailed(cause) => {
                    self.phase = PhaseData::Between;
                    WalkStep::Emit(WalkEvent::Error(FsError::Io(target, cause)))
                },
                _ => {
                    self.phase = PhaseData::TargetMeta { target: target.clone() };
                    WalkStep::Stat { path: target }
                },
            },
            PhaseData::TargetVerdict { target, meta } => match reply {
                WalkReply::Verdict(ignored) => {
                    if ignored {
                        self.advance()
                    } else {
                        self.dispatch_target(target, meta)
                    }
                },
                _ => {
                    let is_dir = meta.is_dir();
                    self.phase = PhaseData::TargetVerdict { target: target.clone(), meta };
                    WalkStep::Consult { path: target, is_dir }
                },
            },
            PhaseData::Finished => {
                self.phase = PhaseData::Finished;
                WalkStep::Done
            },
        }
    }
}

/// The mutable reference `v`, to a visitor that stands as `before`, is
/// handed to the method that is there for the kind of `event`, with what
/// the event holds: a file goes to `visit_file`, an entering to
/// `enter_dir`, an exit to `exit_dir`, a symbolic link to `visit_symlink`,
/// an error to `on_error`. How the visitor stands once the reference is
/// given back is what that method of `V` promises.
pub open spec fn told<V: FsVisitor>(v: &mut V, before: V, event: Event) -> bool {
    &&& mut_ref_current(v) == before
    &&& match event {
        Event::VisitFile { path, meta, depth } => exists|p: &str|
            p@ == path && #[trigger] call_ensures(
                <V as FsVisitor>::visit_file,
                (v, p, &meta, depth),
                (),
            ),
        Event::EnterDir { path, meta, depth } => exists|p: &str|
            p@ == path && #[trigger] call_ensures(
                <V as FsVisitor>::enter_dir,
                (v, p, &meta, depth),
                (),
            ),
        Event::ExitDir { path, meta, depth } => exists|p: &str|
            p@ == path && #[trigger] call_ensures(
                <V as FsVisitor>::exit_dir,
                (v, p, &meta, depth),
                (),
            ),
        Event::VisitSymlink { path, depth } => exists|p: &str|
            p@ == path && #[trigger] call_ensures(
                <V as FsVisitor>::visit_symlink,
                (v, p, depth),
                (),
            ),
        Event::Error(failure) => exists|error: FsError|
            error@ == failure && #[trigger] call_ensures(
                <V as FsVisitor>::on_error,
                (v, error),
                (),
            ),
    }
}

/// The filter has given the verdict `ignored` on the path `path`: the
/// verdict is what `is_ignored` of `F` promises for these arguments.
pub open spec fn judged<F: PathFilter>(
    filter: &F,
    path: &str,
    is_dir: bool,
    ignored: bool,
) -> bool {
    call_ensures(<F as PathFilter>::is_ignored, (filter, path, is_dir), ignored)
}

/// Hands one event to the visitor, by the method that is there for its
/// kind and with what the event holds. The visitor ends as that one call
/// leaves it.
pub fn deliver<V: FsVisitor>(visitor: &mut V, event: WalkEvent)
    ensures
        exists|v: &mut V|
            mut_ref_future(v) == *final(visitor) && #[trigger] told(v, *old(visitor), event@),
{
    match event {
        WalkEvent::VisitFile { path, meta, depth } => {
            visitor.visit_file(path.as_str(), &meta, depth);
            proof {
                let v = choose|v: &mut V, p: &str|
                    mut_ref_current(v) == *old(visitor) && mut_ref_future(v) == *final(visitor)
                        && p@ == path@ && #[trigger] call_ensures(
                        <V as FsVisitor>::visit_file,
                        (v, p, &meta, depth),
                        (),
                    );
                assert(told(v.0, *old(visitor), event@));
            }
        },
        WalkEvent::EnterDir { path, meta, depth } => {
            visitor.enter_dir(path.as_str(), &meta, depth);
            proof {
                let v = choose|v: &mut V, p: &str|
                    mut_ref_current(v) == *old(visitor) && mut_ref_future(v) == *final(visitor)
                        && p@ == path@ && #[trigger] call_ensures(
                        <V as FsVisitor>::enter_dir,
                        (v, p, &meta, depth),
                        (),
                    );
                assert(told(v.0, *old(visitor), event@));
            }
        },
        WalkEvent::ExitDir { path, meta, depth } => {
            visitor.exit_dir(path.as_str(), &meta, depth);
            proof {
                let v = choose|v: &mut V, p: &str|
                    mut_ref_current(v) == *old(visitor) && mut_ref_future(v) == *final(visitor)
                        && p@ == path@ && #[trigger] call_ensures(
                        <V as FsVisitor>::exit_dir,
                        (v, p, &meta, depth),
                        (),
                    );
                assert(told(v.0, *old(visitor), event@));
            }
        },
        WalkEvent::VisitSymlink { path, depth } => {
            visitor.visit_symlink(path.as_str(), depth);
            proof {
                let v = choose|v: &mut V, p: &str|
                    mut_ref_current(v) == *old(visitor) && mut_ref_future(v) == *final(visitor)
                        && p@ == path@ && #[trigger] call_ensures(
                        <V as FsVisitor>::visit_symlink,
                        (v, p, depth),
                        (),
                    );
                assert(told(v.0, *old(visitor), event@));
            }
        },
        WalkEvent::Error(error) => {
            visitor.on_error(error);
            proof {
                let v = choose|v: &mut V|
                    mut_ref_current(v) == *old(visitor) && mut_ref_future(v) == *final(visitor)
                        && #[trigger] call_ensures(<V as FsVisitor>::on_error, (v, error), ());
                assert(told(v, *old(visitor), event@));
            }
        },
    }
}

/// Puts to the filter the question that the walk has handed out, and
/// makes the walk's answer of what the filter says: a verdict, and the one
/// that the filter's `is_ignored` gives on this path and kind.
pub fn consult<F: PathFilter>(filter: &F, path: &str, is_dir: bool) -> (r: WalkReply)
    ensures
        r@ matches Reply::Verdict(ignored) && judged(filter, path, is_dir, ignored),
{
    WalkReply::Verdict(filter.is_ignored(path, is_dir))
}

} // verus!
