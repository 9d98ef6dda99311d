//! What holds of every walk, whatever the file system and the filter
//! answer: the shape of the state is kept, no event lies beyond the depth
//! limit, and with links followed no directory is entered twice.

use vstd::prelude::*;
use crate::walk::{
    advance, current_depth, deeper, initial, next, Entered, Entry, Event, Level, Phase, Reply, Step,
    Walk,
};

verus! {

/// The greatest depth at which anything is visited: entries right below
/// the root are visited under any limit.
pub open spec fn depth_limit(max_depth: usize) -> usize {
    if max_depth > 1 {
        max_depth
    } else {
        1
    }
}

/// The levels are nested: the root's entries have depth 1; each level
/// above it belongs to a directory met at the depth of the level before,
/// short of the depth limit, and holds the entries one deeper.
pub open spec fn nested(levels: Seq<Level>, max_depth: usize) -> bool {
    forall|i: int|
        0 <= i < levels.len() ==> if i == 0 {
            (#[trigger] levels[i]).dir is None && levels[i].depth == 1
        } else {
            &&& (#[trigger] levels[i]).dir matches Some(dir)
            &&& dir.depth == levels[i - 1].depth
            &&& dir.depth < max_depth
            &&& levels[i].depth == dir.depth + 1
        }
}

/// The shape that the state of a walk keeps.
pub open spec fn well_formed(w: Walk) -> bool {
    &&& nested(w.levels, w.max_depth)
    &&& !w.follow_symlinks ==> w.visited == Set::<Seq<char>>::empty()
    &&& match w.phase {
        Phase::Start | Phase::RootListing | Phase::Finished => w.levels.len() == 0,
        Phase::Between | Phase::Verdict { .. } => w.levels.len() > 0,
        Phase::Entered(dir) | Phase::Leaving(dir) => w.levels.len() > 0 && dir.depth
            == current_depth(w),
        Phase::Listing(dir) => w.levels.len() > 0 && dir.depth == current_depth(w) && dir.depth
            < w.max_depth,
        Phase::DirIdentity { .. } | Phase::LinkSeen { .. } | Phase::LinkTarget { .. } =>
            w.levels.len() > 0 && w.follow_symlinks,
        Phase::TargetMeta { target } | Phase::TargetVerdict { target, .. } => w.levels.len() > 0
            && w.follow_symlinks && w.visited.contains(target),
    }
}

/// The depth that an event reports, if it reports one.
pub open spec fn event_depth(event: Event) -> Option<usize> {
    match event {
        Event::VisitFile { depth, .. } => Some(depth),
        Event::EnterDir { depth, .. } => Some(depth),
        Event::ExitDir { depth, .. } => Some(depth),
        Event::VisitSymlink { depth, .. } => Some(depth),
        Event::Error(_) => None,
    }
}

/// Whether what a step hands out respects the depth limit.
pub open spec fn within_limit(out: Step, max_depth: usize) -> bool {
    out matches Step::Emit(event) ==> (event_depth(event) matches Some(depth) ==> 1 <= depth
        <= depth_limit(max_depth))
}

/// The state after the walk `w` has taken the answers `replies`, one by one.
pub open spec fn run(w: Walk, replies: Seq<Reply>) -> Walk
    decreases replies.len(),
{
    if replies.len() == 0 {
        w
    } else {
        next(run(w, replies.drop_last()), replies.last()).0
    }
}

/// What the walk `w` hands out while it takes the answers `replies`, one
/// for each answer.
pub open spec fn outputs(w: Walk, replies: Seq<Reply>) -> Seq<Step>
    decreases replies.len(),
{
    if replies.len() == 0 {
        Seq::empty()
    } else {
        outputs(w, replies.drop_last()).push(
            next(run(w, replies.drop_last()), replies.last()).1,
        )
    }
}

/// The canonical path of the directory that a step enters, with links
/// followed: the one just resolved for a directory met in a listing, or
/// the path of a link's target, which is canonical as it stands.
pub open spec fn entered_identity(w: Walk, reply: Reply) -> Option<Seq<char>> {
    match w.phase {
        Phase::DirIdentity { .. } => match reply {
            Reply::Resolved(canonical) => if w.visited.contains(canonical) {
                None
            } else {
                Some(canonical)
            },
            _ => None,
        },
        Phase::TargetVerdict { target, meta } => match reply {
            Reply::Verdict(ignored) => if !ignored && meta.kind is Directory {
                Some(target)
            } else {
                None
            },
            _ => None,
        },
        _ => None,
    }
}

/// The canonical paths of the directories entered while the walk `w` takes
/// the answers `replies`, in the order of entering.
pub open spec fn entered(w: Walk, replies: Seq<Reply>) -> Seq<Seq<char>>
    decreases replies.len(),
{
    if replies.len() == 0 {
        Seq::empty()
    } else {
        let before = entered(w, replies.drop_last());
        match entered_identity(run(w, replies.drop_last()), replies.last()) {
            Some(identity) => before.push(identity),
            None => before,
        }
    }
}

/// A walk that has not begun is well formed.
pub proof fn law_initial_well_formed(root: Seq<char>, max_depth: Option<usize>, follow: bool)
    ensures
        well_formed(initial(root, max_depth, follow)),
{
}

proof fn lemma_advance(w: Walk)
    requires
        nested(w.levels, w.max_depth),
        w.levels.len() > 0,
        !w.follow_symlinks ==> w.visited == Set::<Seq<char>>::empty(),
    ensures
        well_formed(advance(w).0),
        within_limit(advance(w).1, w.max_depth),
        advance(w).0.visited == w.visited,
        advance(w).0.max_depth == w.max_depth,
        advance(w).0.follow_symlinks == w.follow_symlinks,
        !(advance(w).1 matches Step::Emit(Event::EnterDir { .. })),
        !(advance(w).0.phase is TargetMeta),
        !(advance(w).0.phase is TargetVerdict),
{
    let top = w.levels.last();
    let n = w.levels.len() as int;
    assert(top == w.levels[n - 1]);
    if top.pending.len() == 0 {
        let outer = w.levels.drop_last();
        assert forall|i: int| 0 <= i < outer.len() implies (if i == 0 {
            (#[trigger] outer[i]).dir is None && outer[i].depth == 1
        } else {
            &&& (#[trigger] outer[i]).dir matches Some(dir)
            &&& dir.depth == outer[i - 1].depth
            &&& dir.depth < w.max_depth
            &&& outer[i].depth == dir.depth + 1
        }) by {
            assert(outer[i] == w.levels[i]);
        }
        if n > 1 {
            assert(w.levels[n - 1].dir is Some);
            assert(outer.last() == w.levels[n - 2]);
        } else {
            assert(w.levels[0].dir is None);
        }
    } else {
        let rest = Level { pending: top.pending.drop_first(), ..top };
        let levels = w.levels.drop_last().push(rest);
        assert forall|i: int| 0 <= i < levels.len() implies (if i == 0 {
            (#[trigger] levels[i]).dir is None && levels[i].depth == 1
        } else {
            &&& (#[trigger] levels[i]).dir matches Some(dir)
            &&& dir.depth == levels[i - 1].depth
            &&& dir.depth < w.max_depth
            &&& levels[i].depth == dir.depth + 1
        }) by {
            assert(levels[i].dir == w.levels[i].dir);
            assert(levels[i].depth == w.levels[i].depth);
            if i > 0 {
                assert(levels[i - 1].depth == w.levels[i - 1].depth);
            }
        }
    }
}

proof fn lemma_top_depth(w: Walk)
    requires
        nested(w.levels, w.max_depth),
        w.levels.len() > 0,
    ensures
        1 <= current_depth(w) <= depth_limit(w.max_depth),
{
    let n = w.levels.len() as int;
    assert(w.levels.last() == w.levels[n - 1]);
    if n > 1 {
        assert(w.levels[n - 1].dir is Some);
    } else {
        assert(w.levels[0].depth == 1);
    }
}

proof fn lemma_open(w: Walk, dir: Entered, entries: Seq<Entry>)
    requires
        nested(w.levels, w.max_depth),
        w.levels.len() > 0,
        dir.depth == current_depth(w),
        dir.depth < w.max_depth,
    ensures
        nested(
            w.levels.push(
                Level { dir: Some(dir), depth: deeper(dir.depth), pending: entries },
            ),
            w.max_depth,
        ),
{
    let level = Level { dir: Some(dir), depth: deeper(dir.depth), pending: entries };
    let levels = w.levels.push(level);
    let n = w.levels.len() as int;
    assert(w.levels.last() == w.levels[n - 1]);
    assert forall|i: int| 0 <= i < levels.len() implies (if i == 0 {
        (#[trigger] levels[i]).dir is None && levels[i].depth == 1
    } else {
        &&& (#[trigger] levels[i]).dir matches Some(d)
        &&& d.depth == levels[i - 1].depth
        &&& d.depth < w.max_depth
        &&& levels[i].depth == d.depth + 1
    }) by {
        if i < n {
            assert(levels[i] == w.levels[i]);
            if i > 0 {
                assert(levels[i - 1] == w.levels[i - 1]);
            }
        } else {
            assert(levels[i - 1] == w.levels[n - 1]);
        }
    }
}

/// A step keeps the state well formed and its settings as they are, never
/// forgets a registered path, and hands out no event beyond the depth
/// limit.
pub proof fn law_step_keeps_shape(w: Walk, reply: Reply)
    requires
        well_formed(w),
    ensures
        well_formed(next(w, reply).0),
        next(w, reply).0.max_depth == w.max_depth,
        next(w, reply).0.follow_symlinks == w.follow_symlinks,
        next(w, reply).0.root == w.root,
        w.visited.subset_of(next(w, reply).0.visited),
        within_limit(next(w, reply).1, w.max_depth),
{
    match w.phase {
        Phase::Start => {},
        Phase::RootListing => {
            if let Reply::Listing(entries) = reply {
                let opened = Walk {
                    levels: w.levels.push(Level { dir: None, depth: 1, pending: entries }),
                    ..w
                };
                assert(opened.levels.len() == 1);
                assert(nested(opened.levels, w.max_depth));
                lemma_advance(opened);
            }
        },
        Phase::Listing(dir) => {
            if let Reply::Listing(entries) = reply {
                lemma_open(w, dir, entries);
                let opened = Walk {
                    levels: w.levels.push(
                        Level {
                            dir: Some(dir),
                            depth: deeper(dir.depth),
                            pending: entries,
                        },
                    ),
                    ..w
                };
                lemma_advance(opened);
            } else {
                lemma_top_depth(w);
            }
        },
        Phase::Finished => {},
        _ => {
            lemma_advance(w);
            lemma_top_depth(w);
        },
    }
}

/// Well-formedness holds all along a walk.
pub proof fn law_run_well_formed(w: Walk, replies: Seq<Reply>)
    requires
        well_formed(w),
    ensures
        well_formed(run(w, replies)),
        run(w, replies).max_depth == w.max_depth,
        run(w, replies).follow_symlinks == w.follow_symlinks,
        outputs(w, replies).len() == replies.len(),
    decreases replies.len(),
{
    if replies.len() > 0 {
        law_run_well_formed(w, replies.drop_last());
        law_step_keeps_shape(run(w, replies.drop_last()), replies.last());
    }
}

/// The depth limit: whatever the answers, a walk hands out no event with a
/// depth beyond the limit, nor with a depth below 1. Entries right below
/// the root are at depth 1 and are visited under any limit.
pub proof fn law_depth_limit(
    root: Seq<char>,
    max_depth: Option<usize>,
    follow: bool,
    replies: Seq<Reply>,
    i: int,
)
    requires
        0 <= i < replies.len(),
    ensures
        within_limit(
            outputs(initial(root, max_depth, follow), replies)[i],
            initial(root, max_depth, follow).max_depth,
        ),
    decreases replies.len(),
{
    let w = initial(root, max_depth, follow);
    law_run_well_formed(w, replies.drop_last());
    if i == replies.len() - 1 {
        law_step_keeps_shape(run(w, replies.drop_last()), replies.last());
    } else {
        law_depth_limit(root, max_depth, follow, replies.drop_last(), i);
    }
}

/// A directory at the depth limit or beyond it is not listed: a listing
/// is asked for only at the start, for the root, and for a directory that
/// was entered at a depth short of the limit.
pub proof fn law_listing_above_limit(w: Walk, reply: Reply)
    requires
        well_formed(w),
        next(w, reply).1 is ListDir,
    ensures
        match w.phase {
            Phase::Start | Phase::RootListing => next(w, reply).1 == (Step::ListDir {
                path: w.root,
            }),
            Phase::Entered(dir) | Phase::Listing(dir) => dir.depth < w.max_depth && next(
                w,
                reply,
            ).1 == (Step::ListDir { path: dir.path }),
            _ => false,
        },
{
    match w.phase {
        Phase::Start | Phase::RootListing | Phase::Entered(_) | Phase::Listing(_) => {},
        _ => {
            if w.levels.len() > 0 {
                lemma_advance_hands_out(w);
            }
        },
    }
}

/// What going on with the current directory can hand out.
proof fn lemma_advance_hands_out(w: Walk)
    ensures
        match advance(w).1 {
            Step::Done => true,
            Step::Consult { .. } => true,
            Step::Emit(Event::ExitDir { .. }) => true,
            Step::Emit(Event::Error(_)) => true,
            _ => false,
        },
{
}

/// With links followed, a step tells the visitor that a directory is
/// entered exactly when it has an identity for it, which it registers no
/// later than then.
pub proof fn law_entering_has_identity(w: Walk, reply: Reply)
    requires
        well_formed(w),
        w.follow_symlinks,
    ensures
        (next(w, reply).1 matches Step::Emit(Event::EnterDir { .. })) <==> entered_identity(
            w,
            reply,
        ) is Some,
        entered_identity(w, reply) matches Some(identity) ==> next(w, reply).0.visited.contains(
            identity,
        ),
        (w.phase is TargetVerdict && entered_identity(w, reply) is Some) ==> (next(w, reply).1
            matches Step::Emit(Event::EnterDir { path, .. }) && entered_identity(w, reply)
            == Some(path)),
{
    lemma_advance_hands_out(w);
}

/// What ties the directories entered so far to the state: each of them is
/// registered, none occurs twice, and the target of a link that was
/// registered and waits for its probe or its verdict was not entered yet.
pub open spec fn entered_once(w: Walk, log: Seq<Seq<char>>) -> bool {
    &&& log.no_duplicates()
    &&& forall|i: int| 0 <= i < log.len() ==> w.visited.contains(#[trigger] log[i])
    &&& match w.phase {
        Phase::TargetMeta { target } => !log.contains(target),
        Phase::TargetVerdict { target, .. } => !log.contains(target),
        _ => true,
    }
}

/// The entered directories stay registered while the registered paths grow.
proof fn lemma_log_stays_registered(
    log: Seq<Seq<char>>,
    before: Set<Seq<char>>,
    after: Set<Seq<char>>,
)
    requires
        forall|i: int| 0 <= i < log.len() ==> before.contains(#[trigger] log[i]),
        before.subset_of(after),
    ensures
        forall|i: int| 0 <= i < log.len() ==> after.contains(#[trigger] log[i]),
{
    assert forall|i: int| 0 <= i < log.len() implies after.contains(#[trigger] log[i]) by {
        assert(before.contains(log[i]));
    }
}

/// A path that is not registered was not entered.
proof fn lemma_unregistered_not_entered(
    log: Seq<Seq<char>>,
    visited: Set<Seq<char>>,
    path: Seq<char>,
)
    requires
        forall|i: int| 0 <= i < log.len() ==> visited.contains(#[trigger] log[i]),
        !visited.contains(path),
    ensures
        !log.contains(path),
{
    if log.contains(path) {
        let i = choose|i: int| 0 <= i < log.len() && log[i] == path;
        assert(visited.contains(log[i]));
    }
}

/// Entering a directory that was not entered before keeps the log free of
/// duplicates.
proof fn lemma_log_push(log: Seq<Seq<char>>, visited: Set<Seq<char>>, path: Seq<char>)
    requires
        log.no_duplicates(),
        !log.contains(path),
        forall|i: int| 0 <= i < log.len() ==> visited.contains(#[trigger] log[i]),
        visited.contains(path),
    ensures
        log.push(path).no_duplicates(),
        forall|i: int| 0 <= i < log.push(path).len() ==> visited.contains(
            #[trigger] log.push(path)[i],
        ),
{
    let longer = log.push(path);
    assert forall|i: int, j: int|
        0 <= i < longer.len() && 0 <= j < longer.len() && i != j implies longer[i]
        != longer[j] by {
        if i < log.len() && j < log.len() {
            assert(log[i] != log[j]);
        } else if i < log.len() {
            assert(log.contains(log[i]));
        } else {
            assert(log.contains(log[j]));
        }
    }
    assert forall|i: int| 0 <= i < longer.len() implies visited.contains(
        #[trigger] longer[i],
    ) by {
        if i < log.len() {
            assert(longer[i] == log[i]);
        }
    }
}

proof fn lemma_step_enters_once(w: Walk, reply: Reply, log: Seq<Seq<char>>)
    requires
        well_formed(w),
        entered_once(w, log),
    ensures
        entered_once(
            next(w, reply).0,
            match entered_identity(w, reply) {
                Some(identity) => log.push(identity),
                None => log,
            },
        ),
{
    let after = next(w, reply).0;
    law_step_keeps_shape(w, reply);
    lemma_log_stays_registered(log, w.visited, after.visited);
    if w.levels.len() > 0 {
        lemma_advance(w);
    }
    match w.phase {
        Phase::DirIdentity { path, meta } => {
            if let Reply::Resolved(canonical) = reply {
                if !w.visited.contains(canonical) {
                    lemma_unregistered_not_entered(log, w.visited, canonical);
                    lemma_log_push(log, after.visited, canonical);
                }
            }
        },
        Phase::LinkTarget { path } => {
            if let Reply::Resolved(target) = reply {
                if !w.visited.contains(target) {
                    lemma_unregistered_not_entered(log, w.visited, target);
                }
            }
        },
        Phase::TargetMeta { target } => {},
        Phase::TargetVerdict { target, meta } => {
            if entered_identity(w, reply) is Some {
                lemma_log_push(log, after.visited, target);
            }
        },
        _ => {},
    }
}

proof fn lemma_run_enters_once(w: Walk, replies: Seq<Reply>)
    requires
        well_formed(w),
        entered_once(w, Seq::empty()),
    ensures
        entered_once(run(w, replies), entered(w, replies)),
    decreases replies.len(),
{
    if replies.len() > 0 {
        lemma_run_enters_once(w, replies.drop_last());
        law_run_well_formed(w, replies.drop_last());
        lemma_step_enters_once(
            run(w, replies.drop_last()),
            replies.last(),
            entered(w, replies.drop_last()),
        );
    }
}

/// With links followed, no directory is entered twice: whatever the
/// answers, the canonical paths of the directories that a walk enters are
/// all different. So a link that leads back to a directory above it is
/// not followed a second time.
pub proof fn law_no_directory_entered_twice(
    root: Seq<char>,
    max_depth: Option<usize>,
    follow: bool,
    replies: Seq<Reply>,
)
    ensures
        entered(initial(root, max_depth, follow), replies).no_duplicates(),
{
    lemma_run_enters_once(initial(root, max_depth, follow), replies);
}

} // verus!
