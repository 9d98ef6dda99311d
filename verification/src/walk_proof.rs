//! The machine does what the recursive description says: driven by a loop
//! over a world, it hands out the events of [`walk_events`], in their
//! order, and then says that it is done.

use vstd::prelude::*;
use crate::walk::{
    advance, current_depth, deeper, initial, next, Entered, Entry, EntryKind, Event, Level, Phase,
    Reply, Walk,
};
use crate::error::Failure;
use crate::walk_model::{
    drive_events, drive_state, emitted, enter_directory, follow_link, react, visit_entries,
    visit_entry, walk_events, Settings, World,
};

verus! {

/// The settings of a walk.
pub open spec fn settings_of(w: Walk) -> Settings {
    Settings { max_depth: w.max_depth, follow_symlinks: w.follow_symlinks }
}

/// The machine in state `w` with the answer `reply` is about to go on with
/// the current directory of `e`.
pub open spec fn resumes(w: Walk, reply: Reply, e: Walk) -> bool {
    next(w, reply) == advance(e)
}

/// The walk `e` with the first pending entry of its current directory
/// taken off, and `visited` registered.
pub open spec fn consumed(e: Walk, visited: Set<Seq<char>>) -> Walk {
    Walk {
        levels: e.levels.drop_last().push(
            Level { pending: e.levels.last().pending.drop_first(), ..e.levels.last() },
        ),
        visited,
        ..e
    }
}

/// The walk `e` with all pending entries of its current directory taken
/// off, and `visited` registered.
pub open spec fn cleared(e: Walk, visited: Set<Seq<char>>) -> Walk {
    Walk {
        levels: e.levels.drop_last().push(Level { pending: Seq::empty(), ..e.levels.last() }),
        visited,
        ..e
    }
}

/// Running `a + b` steps is running `a` steps and then `b` more.
pub proof fn lemma_drive_split(world: World, w: Walk, reply: Reply, a: nat, b: nat)
    ensures
        drive_state(world, w, reply, a + b) == drive_state(
            world,
            drive_state(world, w, reply, a).0,
            drive_state(world, w, reply, a).1,
            b,
        ),
        drive_events(world, w, reply, a + b) == drive_events(world, w, reply, a) + drive_events(
            world,
            drive_state(world, w, reply, a).0,
            drive_state(world, w, reply, a).1,
            b,
        ),
    decreases a,
{
    if a == 0 {
        assert(drive_events(world, w, reply, 0) + drive_events(world, w, reply, b)
            =~= drive_events(world, w, reply, b));
    } else {
        let (after, out) = next(w, reply);
        let r = react(world, out);
        lemma_drive_split(world, after, r, (a - 1) as nat, b);
        assert((a + b - 1) as nat == (a - 1) as nat + b);
        let mid = drive_state(world, after, r, (a - 1) as nat);
        assert(emitted(out) + (drive_events(world, after, r, (a - 1) as nat) + drive_events(
            world,
            mid.0,
            mid.1,
            b,
        )) =~= (emitted(out) + drive_events(world, after, r, (a - 1) as nat)) + drive_events(
            world,
            mid.0,
            mid.1,
            b,
        ));
    }
}

/// Running `n + 1` steps is taking one step and then running `n` more.
proof fn lemma_drive_first(world: World, w: Walk, reply: Reply, n: nat)
    ensures
        drive_state(world, w, reply, n + 1) == drive_state(
            world,
            next(w, reply).0,
            react(world, next(w, reply).1),
            n,
        ),
        drive_events(world, w, reply, n + 1) == emitted(next(w, reply).1) + drive_events(
            world,
            next(w, reply).0,
            react(world, next(w, reply).1),
            n,
        ),
{
    assert((n + 1 - 1) as nat == n);
}

/// From the telling of the entering to the telling of the exit.
proof fn lemma_enter(world: World, w: Walk, dir: Entered, fuel: nat) -> (k: nat)
    requires
        w.phase == Phase::Entered(dir),
        w.levels.len() > 0,
        enter_directory(
            world,
            settings_of(w),
            dir.path,
            dir.meta,
            dir.depth,
            w.visited,
            fuel,
        ) is Some,
    ensures
        ({
            let outcome = enter_directory(
                world,
                settings_of(w),
                dir.path,
                dir.meta,
                dir.depth,
                w.visited,
                fuel,
            )->0;
            &&& drive_state(world, w, Reply::Nothing, k) == (
                Walk { phase: Phase::Between, visited: outcome.visited, ..w },
                Reply::Nothing,
            )
            &&& seq![Event::EnterDir { path: dir.path, meta: dir.meta, depth: dir.depth }]
                + drive_events(world, w, Reply::Nothing, k) == outcome.events
        }),
    decreases fuel, 0nat, 0nat,
{
    let mut steps: nat = 0;
    let enter = Event::EnterDir { path: dir.path, meta: dir.meta, depth: dir.depth };
    let exit = Event::ExitDir { path: dir.path, meta: dir.meta, depth: dir.depth };
    let (w1, out1) = next(w, Reply::Nothing);
    let r1 = react(world, out1);
    if dir.depth < w.max_depth {
        match r1 {
            Reply::Listing(entries) => {
                let opened = Walk {
                    levels: w1.levels.push(
                        Level { dir: Some(dir), depth: deeper(dir.depth), pending: entries },
                    ),
                    ..w1
                };
                assert(opened.levels.last().pending == entries);
                assert(deeper(dir.depth) == (dir.depth + 1) as usize);
                let inside = visit_entries(
                    world,
                    settings_of(w),
                    entries,
                    (dir.depth + 1) as usize,
                    w.visited,
                    (fuel - 1) as nat,
                )->0;
                let n = lemma_entries(world, w1, r1, opened, (fuel - 1) as nat);
                let (w2, r2) = drive_state(world, w1, r1, n);
                let done = cleared(opened, inside.visited);
                assert(done.levels.drop_last() =~= w.levels);
                assert(next(w2, r2) == advance(done));
                lemma_drive_split(world, w1, r1, n, 1);
                lemma_drive_first(world, w2, r2, 0);
                lemma_drive_first(world, w, Reply::Nothing, n + 1);
                steps = n + 2;
                assert(seq![enter] + drive_events(world, w, Reply::Nothing, steps) =~= seq![enter]
                    + inside.events + seq![exit]);
            },
            Reply::ListFailed(cause) => {
                let (w2, out2) = next(w1, r1);
                let (w3, out3) = next(w2, Reply::Nothing);
                lemma_drive_first(world, w2, Reply::Nothing, 0);
                lemma_drive_first(world, w1, r1, 1);
                lemma_drive_first(world, w, Reply::Nothing, 2);
                steps = 3;
                assert(seq![enter] + drive_events(world, w, Reply::Nothing, steps) =~= seq![
                    enter,
                    Event::Error(Failure::Io(dir.path, cause)),
                    exit,
                ]);
            },
            _ => {
                steps = 0;
            },
        }
    } else {
        lemma_drive_first(world, w, Reply::Nothing, 0);
        steps = 1;
        assert(seq![enter] + drive_events(world, w, Reply::Nothing, steps) =~= seq![enter, exit]);
    }
    steps
}

/// Following a link, from the telling of the link on.
proof fn lemma_link(world: World, w: Walk, path: Seq<char>, fuel: nat) -> (k: nat)
    requires
        w.phase == (Phase::LinkSeen { path }),
        w.levels.len() > 0,
        follow_link(world, settings_of(w), path, current_depth(w), w.visited, fuel) is Some,
    ensures
        ({
            let outcome = follow_link(
                world,
                settings_of(w),
                path,
                current_depth(w),
                w.visited,
                fuel,
            )->0;
            let (w2, r2) = drive_state(world, w, Reply::Nothing, k);
            &&& resumes(w2, r2, Walk { visited: outcome.visited, ..w })
            &&& drive_events(world, w, Reply::Nothing, k) == outcome.events
        }),
    decreases fuel, 1nat, 0nat,
{
    let mut steps: nat = 0;
    let depth = current_depth(w);
    let (w1, out1) = next(w, Reply::Nothing);
    let r1 = react(world, out1);
    match r1 {
        Reply::Resolved(target) => {
            if w.visited.contains(target) {
                lemma_drive_first(world, w, Reply::Nothing, 0);
                steps = 1;
                assert(drive_events(world, w, Reply::Nothing, steps) =~= Seq::empty());
            } else {
                let (w2, out2) = next(w1, r1);
                let r2 = react(world, out2);
                match r2 {
                    Reply::Stat(meta) => {
                        let (w3, out3) = next(w2, r2);
                        let r3 = react(world, out3);
                        match r3 {
                            Reply::Verdict(ignored) => {
                                if !ignored && meta.kind is File {
                                    lemma_drive_first(world, w3, r3, 0);
                                    lemma_drive_first(world, w2, r2, 1);
                                    lemma_drive_first(world, w1, r1, 2);
                                    lemma_drive_first(world, w, Reply::Nothing, 3);
                                    steps = 4;
                                    assert(drive_events(world, w, Reply::Nothing, steps) =~= seq![
                                        Event::VisitFile { path: target, meta, depth },
                                    ]);
                                } else if !ignored && meta.kind is Directory {
                                    let (w4, out4) = next(w3, r3);
                                    let dir = Entered { path: target, meta, depth };
                                    let ke = lemma_enter(world, w4, dir, fuel);
                                    lemma_drive_first(world, w3, r3, ke);
                                    lemma_drive_first(world, w2, r2, ke + 1);
                                    lemma_drive_first(world, w1, r1, ke + 2);
                                    lemma_drive_first(world, w, Reply::Nothing, ke + 3);
                                    steps = ke + 4;
                                    assert(drive_events(world, w, Reply::Nothing, steps) =~= seq![
                                        Event::EnterDir { path: target, meta, depth },
                                    ] + drive_events(world, w4, Reply::Nothing, ke));
                                } else {
                                    lemma_drive_first(world, w2, r2, 0);
                                    lemma_drive_first(world, w1, r1, 1);
                                    lemma_drive_first(world, w, Reply::Nothing, 2);
                                    steps = 3;
                                    assert(drive_events(world, w, Reply::Nothing, steps)
                                        =~= Seq::empty());
                                }
                            },
                            _ => {
                                steps = 0;
                            },
                        }
                    },
                    Reply::StatFailed(cause) => {
                        lemma_drive_first(world, w2, r2, 0);
                        lemma_drive_first(world, w1, r1, 1);
                        lemma_drive_first(world, w, Reply::Nothing, 2);
                        steps = 3;
                        assert(drive_events(world, w, Reply::Nothing, steps) =~= seq![
                            Event::Error(Failure::Io(target, cause)),
                        ]);
                    },
                    _ => {
                        steps = 0;
                    },
                }
            }
        },
        Reply::ResolveFailed(cause) => {
            lemma_drive_first(world, w1, r1, 0);
            lemma_drive_first(world, w, Reply::Nothing, 1);
            steps = 2;
            assert(drive_events(world, w, Reply::Nothing, steps) =~= seq![
                Event::Error(Failure::Io(path, cause)),
            ]);
        },
        _ => {
            steps = 0;
        },
    }
    steps
}

/// One entry of the current directory.
proof fn lemma_entry(world: World, w: Walk, reply: Reply, e: Walk, fuel: nat) -> (k: nat)
    requires
        resumes(w, reply, e),
        e.levels.len() > 0,
        e.levels.last().pending.len() > 0,
        visit_entry(
            world,
            settings_of(e),
            e.levels.last().pending.first(),
            e.levels.last().depth,
            e.visited,
            fuel,
        ) is Some,
    ensures
        ({
            let outcome = visit_entry(
                world,
                settings_of(e),
                e.levels.last().pending.first(),
                e.levels.last().depth,
                e.visited,
                fuel,
            )->0;
            let (w2, r2) = drive_state(world, w, reply, k);
            &&& resumes(w2, r2, consumed(e, outcome.visited))
            &&& drive_events(world, w, reply, k) == outcome.events
        }),
    decreases fuel, 2nat, 0nat,
{
    let mut steps: nat = 0;
    let depth = e.levels.last().depth;
    let (w1, out1) = next(w, reply);
    let r1 = react(world, out1);
    assert(current_depth(w1) == depth);
    match e.levels.last().pending.first() {
        Entry::Failed(error) => {
            lemma_drive_first(world, w, reply, 0);
            steps = 1;
            assert(drive_events(world, w, reply, steps) =~= seq![Event::Error(error)]);
        },
        Entry::Found { path, meta } => {
            match r1 {
                Reply::Verdict(ignored) => {
                    if ignored || meta.kind is Other {
                        lemma_drive_first(world, w, reply, 0);
                        steps = 1;
                        assert(drive_events(world, w, reply, steps) =~= Seq::empty());
                    } else {
                        let (w2, out2) = next(w1, r1);
                        let r2 = react(world, out2);
                        match meta.kind {
                            EntryKind::File => {
                                lemma_drive_first(world, w1, r1, 0);
                                lemma_drive_first(world, w, reply, 1);
                                steps = 2;
                                assert(drive_events(world, w, reply, steps) =~= seq![
                                    Event::VisitFile { path, meta, depth },
                                ]);
                            },
                            EntryKind::Symlink => {
                                let link = Event::VisitSymlink { path, depth };
                                if e.follow_symlinks {
                                    let kl = lemma_link(world, w2, path, fuel);
                                    lemma_drive_first(world, w1, r1, kl);
                                    lemma_drive_first(world, w, reply, kl + 1);
                                    steps = kl + 2;
                                    assert(drive_events(world, w, reply, steps) =~= seq![link]
                                        + drive_events(world, w2, Reply::Nothing, kl));
                                } else {
                                    lemma_drive_first(world, w1, r1, 0);
                                    lemma_drive_first(world, w, reply, 1);
                                    steps = 2;
                                    assert(drive_events(world, w, reply, steps) =~= seq![link]
                                        + Seq::empty());
                                }
                            },
                            EntryKind::Directory => {
                                let enter = Event::EnterDir { path, meta, depth };
                                let dir = Entered { path, meta, depth };
                                if e.follow_symlinks {
                                    match r2 {
                                        Reply::Resolved(canonical) => {
                                            if e.visited.contains(canonical) {
                                                lemma_drive_first(world, w1, r1, 0);
                                                lemma_drive_first(world, w, reply, 1);
                                                steps = 2;
                                                assert(drive_events(world, w, reply, steps)
                                                    =~= Seq::empty());
                                            } else {
                                                let (w3, out3) = next(w2, r2);
                                                let ke = lemma_enter(world, w3, dir, fuel);
                                                lemma_drive_first(world, w2, r2, ke);
                                                lemma_drive_first(world, w1, r1, ke + 1);
                                                lemma_drive_first(world, w, reply, ke + 2);
                                                steps = ke + 3;
                                                assert(drive_events(world, w, reply, steps) =~= seq![
                                                    enter,
                                                ] + drive_events(
                                                    world,
                                                    w3,
                                                    Reply::Nothing,
                                                    ke,
                                                ));
                                            }
                                        },
                                        Reply::ResolveFailed(cause) => {
                                            lemma_drive_first(world, w2, r2, 0);
                                            lemma_drive_first(world, w1, r1, 1);
                                            lemma_drive_first(world, w, reply, 2);
                                            steps = 3;
                                            assert(drive_events(world, w, reply, steps) =~= seq![
                                                Event::Error(
                                                    Failure::Io(path, cause),
                                                ),
                                            ]);
                                        },
                                        _ => {
                                            steps = 0;
                                        },
                                    }
                                } else {
                                    let ke = lemma_enter(world, w2, dir, fuel);
                                    lemma_drive_first(world, w1, r1, ke);
                                    lemma_drive_first(world, w, reply, ke + 1);
                                    steps = ke + 2;
                                    assert(drive_events(world, w, reply, steps) =~= seq![enter]
                                        + drive_events(world, w2, Reply::Nothing, ke));
                                }
                            },
                            EntryKind::Other => {
                                steps = 0;
                            },
                        }
                    }
                },
                _ => {
                    steps = 0;
                },
            }
        },
    }
    steps
}

/// The entries of the current directory, one after the other.
proof fn lemma_entries(world: World, w: Walk, reply: Reply, e: Walk, fuel: nat) -> (n: nat)
    requires
        resumes(w, reply, e),
        e.levels.len() > 0,
        visit_entries(
            world,
            settings_of(e),
            e.levels.last().pending,
            e.levels.last().depth,
            e.visited,
            fuel,
        ) is Some,
    ensures
        ({
            let outcome = visit_entries(
                world,
                settings_of(e),
                e.levels.last().pending,
                e.levels.last().depth,
                e.visited,
                fuel,
            )->0;
            let (w2, r2) = drive_state(world, w, reply, n);
            &&& resumes(w2, r2, cleared(e, outcome.visited))
            &&& drive_events(world, w, reply, n) == outcome.events
        }),
    decreases fuel, 3nat, e.levels.last().pending.len(),
{
    let mut steps: nat = 0;
    let entries = e.levels.last().pending;
    if entries.len() == 0 {
        steps = 0;
        assert(entries =~= Seq::empty());
        assert((Level { pending: Seq::empty(), ..e.levels.last() }) == e.levels.last());
        assert(cleared(e, e.visited).levels =~= e.levels);
        assert(cleared(e, e.visited) == e);
    } else {
        let first = visit_entry(
            world,
            settings_of(e),
            entries.first(),
            e.levels.last().depth,
            e.visited,
            fuel,
        )->0;
        let k = lemma_entry(world, w, reply, e, fuel);
        let (w1, r1) = drive_state(world, w, reply, k);
        let e1 = consumed(e, first.visited);
        assert(e1.levels.last().pending == entries.drop_first());
        let m = lemma_entries(world, w1, r1, e1, fuel);
        let rest = visit_entries(
            world,
            settings_of(e),
            entries.drop_first(),
            e.levels.last().depth,
            first.visited,
            fuel,
        )->0;
        lemma_drive_split(world, w, reply, k, m);
        steps = k + m;
        assert(cleared(e1, rest.visited).levels =~= cleared(e, rest.visited).levels);
        assert(cleared(e1, rest.visited) == cleared(e, rest.visited));
    }
    steps
}

/// The machine does what the description says. If the walk of the tree
/// below `root` over `world` comes to an end, with the events that
/// `walk_events` gives, then the machine, started afresh and fed the
/// world's answers, hands out just these events in this order within `n`
/// steps, and is finished then.
pub proof fn law_machine_follows_description(
    world: World,
    root: Seq<char>,
    max_depth: Option<usize>,
    follow_symlinks: bool,
    fuel: nat,
) -> (n: nat)
    requires
        walk_events(world, root, max_depth, follow_symlinks, fuel) is Some,
    ensures
        drive_events(world, initial(root, max_depth, follow_symlinks), Reply::Nothing, n)
            == walk_events(world, root, max_depth, follow_symlinks, fuel)->0,
        drive_state(
            world,
            initial(root, max_depth, follow_symlinks),
            Reply::Nothing,
            n,
        ).0.phase is Finished,
{
    let mut steps: nat = 0;
    let w = initial(root, max_depth, follow_symlinks);
    let (w1, out1) = next(w, Reply::Nothing);
    let r1 = react(world, out1);
    match r1 {
        Reply::Listing(entries) => {
            let opened = Walk {
                levels: w1.levels.push(Level { dir: None, depth: 1, pending: entries }),
                ..w1
            };
            assert(opened.levels.last().pending == entries);
            let m = lemma_entries(world, w1, r1, opened, fuel);
            let (w2, r2) = drive_state(world, w1, r1, m);
            lemma_drive_split(world, w1, r1, m, 1);
            lemma_drive_first(world, w2, r2, 0);
            lemma_drive_first(world, w, Reply::Nothing, m + 1);
            steps = m + 2;
            assert(drive_events(world, w, Reply::Nothing, steps) =~= walk_events(
                world,
                root,
                max_depth,
                follow_symlinks,
                fuel,
            )->0);
        },
        Reply::ListFailed(cause) => {
            lemma_drive_first(world, w1, r1, 0);
            lemma_drive_first(world, w, Reply::Nothing, 1);
            steps = 2;
            assert(drive_events(world, w, Reply::Nothing, steps) =~= seq![
                Event::Error(Failure::Io(root, cause)),
            ]);
        },
        _ => {
            steps = 0;
        },
    }
    steps
}

/// A walk that is finished stays so, and hands out nothing more.
pub proof fn law_finished_stays_finished(world: World, w: Walk, reply: Reply, steps: nat)
    requires
        w.phase is Finished,
    ensures
        drive_state(world, w, reply, steps).0 == w,
        drive_events(world, w, reply, steps) == Seq::<Event>::empty(),
    decreases steps,
{
    if steps > 0 {
        law_finished_stays_finished(world, w, Reply::Nothing, (steps - 1) as nat);
        assert(drive_events(world, w, reply, steps) =~= Seq::<Event>::empty());
    }
}

} // verus!
