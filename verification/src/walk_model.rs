//! The walk as one recursive description, and the loop that drives the
//! machine, both as specifications.
//!
//! A [`World`] stands for everything outside the walk: it answers the calls
//! on the file system and the questions to the filter, the same way each
//! time. [`walk_events`] says which events a walk over such a world hands
//! to the visitor. [`drive_events`] says which events the machine hands out
//! when a loop feeds it the world's answers.

use vstd::prelude::*;
use crate::error::Failure;
use crate::walk::{next, Entry, EntryKind, EntryMeta, Event, Reply, Step, Walk};

verus! {

/// What is outside the walk: the answer to each call and each question.
pub struct World {
    pub answer: spec_fn(Step) -> Reply,
}

/// The settings of a walk.
pub struct Settings {
    pub max_depth: usize,
    pub follow_symlinks: bool,
}

/// What a part of a walk brings about: the events for the visitor, and the
/// canonical paths registered after it.
pub struct Outcome {
    pub events: Seq<Event>,
    pub visited: Set<Seq<char>>,
}

/// No event, and the registered paths as they are.
pub open spec fn nothing(visited: Set<Seq<char>>) -> Option<Outcome> {
    Some(Outcome { events: Seq::empty(), visited })
}

/// One event, and the registered paths as they are.
pub open spec fn only(event: Event, visited: Set<Seq<char>>) -> Option<Outcome> {
    Some(Outcome { events: seq![event], visited })
}

/// The events `before`, then what `after` brings about.
pub open spec fn and_then(before: Seq<Event>, after: Option<Outcome>) -> Option<Outcome> {
    match after {
        Some(outcome) => Some(Outcome { events: before + outcome.events, ..outcome }),
        None => None,
    }
}

/// Going through the entries of a directory, at depth `depth`, one after
/// the other. `None` stands for a walk that does not come to an end within
/// `fuel` levels of directories, or that gets an answer of the wrong kind.
pub open spec fn visit_entries(
    world: World,
    settings: Settings,
    entries: Seq<Entry>,
    depth: usize,
    visited: Set<Seq<char>>,
    fuel: nat,
) -> Option<Outcome>
    decreases fuel, 3nat, entries.len(),
{
    if entries.len() == 0 {
        nothing(visited)
    } else {
        match visit_entry(world, settings, entries.first(), depth, visited, fuel) {
            Some(first) => and_then(
                first.events,
                visit_entries(world, settings, entries.drop_first(), depth, first.visited, fuel),
            ),
            None => None,
        }
    }
}

/// One entry. A failed probe is reported. An entry that the filter ignores
/// brings about nothing. A file is shown to the visitor; so is a symbolic
/// link, which is then followed if links are. A directory is entered; if
/// links are followed, only if its canonical path is new, which is then
/// registered.
pub open spec fn visit_entry(
    world: World,
    settings: Settings,
    entry: Entry,
    depth: usize,
    visited: Set<Seq<char>>,
    fuel: nat,
) -> Option<Outcome>
    decreases fuel, 2nat, 0nat,
{
    match entry {
        Entry::Failed(error) => only(Event::Error(error), visited),
        Entry::Found { path, meta } => match (world.answer)(
            Step::Consult { path, is_dir: meta.kind is Directory },
        ) {
            Reply::Verdict(ignored) => if ignored {
                nothing(visited)
            } else {
                match meta.kind {
                    EntryKind::File => only(Event::VisitFile { path, meta, depth }, visited),
                    EntryKind::Other => nothing(visited),
                    EntryKind::Symlink => and_then(
                        seq![Event::VisitSymlink { path, depth }],
                        if settings.follow_symlinks {
                            follow_link(world, settings, path, depth, visited, fuel)
                        } else {
                            nothing(visited)
                        },
                    ),
                    EntryKind::Directory => if settings.follow_symlinks {
                        match (world.answer)(Step::Resolve { path }) {
                            Reply::Resolved(canonical) => if visited.contains(canonical) {
                                nothing(visited)
                            } else {
                                enter_directory(
                                    world,
                                    settings,
                                    path,
                                    meta,
                                    depth,
                                    visited.insert(canonical),
                                    fuel,
                                )
                            },
                            Reply::ResolveFailed(cause) => only(
                                Event::Error(Failure::Io(path, cause)),
                                visited,
                            ),
                            _ => None,
                        }
                    } else {
                        enter_directory(world, settings, path, meta, depth, visited, fuel)
                    },
                }
            },
            _ => None,
        },
    }
}

/// Following a symbolic link. The link is resolved; a target that is
/// registered already is passed by. A new target is registered and probed,
/// put before the filter under its own path, and then treated as a file or
/// a directory met at the depth of the link.
pub open spec fn follow_link(
    world: World,
    settings: Settings,
    path: Seq<char>,
    depth: usize,
    visited: Set<Seq<char>>,
    fuel: nat,
) -> Option<Outcome>
    decreases fuel, 1nat, 0nat,
{
    match (world.answer)(Step::Resolve { path }) {
        Reply::Resolved(target) => if visited.contains(target) {
            nothing(visited)
        } else {
            let registered = visited.insert(target);
            match (world.answer)(Step::Stat { path: target }) {
                Reply::Stat(meta) => match (world.answer)(
                    Step::Consult { path: target, is_dir: meta.kind is Directory },
                ) {
                    Reply::Verdict(ignored) => if ignored {
                        nothing(registered)
                    } else {
                        match meta.kind {
                            EntryKind::File => only(
                                Event::VisitFile { path: target, meta, depth },
                                registered,
                            ),
                            EntryKind::Directory => enter_directory(
                                world,
                                settings,
                                target,
                                meta,
                                depth,
                                registered,
                                fuel,
                            ),
                            _ => nothing(registered),
                        }
                    },
                    _ => None,
                },
                Reply::StatFailed(cause) => only(
                    Event::Error(Failure::Io(target, cause)),
                    registered,
                ),
                _ => None,
            }
        },
        Reply::ResolveFailed(cause) => only(
            Event::Error(Failure::Io(path, cause)),
            visited,
        ),
        _ => None,
    }
}

/// Entering a directory met at depth `depth`: the visitor is told of the
/// entering; short of the depth limit the directory is listed and its
/// entries are gone through one level deeper, or the failure of the
/// listing is reported; then the visitor is told of the exit, whatever
/// happened inside.
pub open spec fn enter_directory(
    world: World,
    settings: Settings,
    path: Seq<char>,
    meta: EntryMeta,
    depth: usize,
    visited: Set<Seq<char>>,
    fuel: nat,
) -> Option<Outcome>
    decreases fuel, 0nat, 0nat,
{
    let enter = Event::EnterDir { path, meta, depth };
    let exit = Event::ExitDir { path, meta, depth };
    if depth < settings.max_depth {
        match (world.answer)(Step::ListDir { path }) {
            Reply::Listing(entries) => if fuel == 0 {
                None
            } else {
                match visit_entries(
                    world,
                    settings,
                    entries,
                    (depth + 1) as usize,
                    visited,
                    (fuel - 1) as nat,
                ) {
                    Some(inside) => Some(
                        Outcome { events: seq![enter] + inside.events + seq![exit], ..inside },
                    ),
                    None => None,
                }
            },
            Reply::ListFailed(cause) => Some(
                Outcome {
                    events: seq![enter, Event::Error(Failure::Io(path, cause)), exit],
                    visited,
                },
            ),
            _ => None,
        }
    } else {
        Some(Outcome { events: seq![enter, exit], visited })
    }
}

/// The events of a walk of the tree below `root`: the root is listed, and
/// its entries are gone through at depth 1; if the listing fails, that is
/// the one event. The root itself is neither entered nor left.
pub open spec fn walk_events(
    world: World,
    root: Seq<char>,
    max_depth: Option<usize>,
    follow_symlinks: bool,
    fuel: nat,
) -> Option<Seq<Event>> {
    let settings = Settings {
        max_depth: match max_depth {
            Some(limit) => limit,
            None => usize::MAX,
        },
        follow_symlinks,
    };
    match (world.answer)(Step::ListDir { path: root }) {
        Reply::Listing(entries) => match visit_entries(
            world,
            settings,
            entries,
            1,
            Set::empty(),
            fuel,
        ) {
            Some(outcome) => Some(outcome.events),
            None => None,
        },
        Reply::ListFailed(cause) => Some(seq![Event::Error(Failure::Io(root, cause))]),
        _ => None,
    }
}

/// What the loop answers to what a step hands out: nothing to an event,
/// else what the world answers.
pub open spec fn react(world: World, out: Step) -> Reply {
    match out {
        Step::Emit(_) => Reply::Nothing,
        Step::Done => Reply::Nothing,
        _ => (world.answer)(out),
    }
}

/// The event that a step hands out, if it hands out one.
pub open spec fn emitted(out: Step) -> Seq<Event> {
    match out {
        Step::Emit(event) => seq![event],
        _ => Seq::empty(),
    }
}

/// The state of the machine, and the answer it takes next, after the loop
/// has run `steps` steps from the state `w` and the answer `reply`.
pub open spec fn drive_state(world: World, w: Walk, reply: Reply, steps: nat) -> (
    Walk,
    Reply,
)
    decreases steps,
{
    if steps == 0 {
        (w, reply)
    } else {
        let (after, out) = next(w, reply);
        drive_state(world, after, react(world, out), (steps - 1) as nat)
    }
}

/// The events that the machine hands out while the loop runs `steps`
/// steps from the state `w` and the answer `reply`.
pub open spec fn drive_events(world: World, w: Walk, reply: Reply, steps: nat) -> Seq<
    Event,
>
    decreases steps,
{
    if steps == 0 {
        Seq::empty()
    } else {
        let (after, out) = next(w, reply);
        emitted(out) + drive_events(world, after, react(world, out), (steps - 1) as nat)
    }
}

} // verus!
