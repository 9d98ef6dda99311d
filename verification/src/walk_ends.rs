//! When a walk comes to an end: under a depth limit, and with links
//! followed over a world of finitely many canonical paths. In both cases
//! the machine, fed the world's answers, is finished after finitely many
//! steps.

use vstd::prelude::*;
use vstd::set_lib::lemma_len_subset;
use crate::walk::{initial, Entry, EntryKind, EntryMeta, Reply, Step};
use crate::walk_model::{
    drive_events, drive_state, enter_directory, follow_link, visit_entries, visit_entry,
    walk_events, Settings, World,
};
use crate::walk_proof::law_machine_follows_description;

verus! {

/// Every answer of the world is of the kind that was asked for.
pub open spec fn answers_in_kind(world: World) -> bool {
    &&& forall|path: Seq<char>, is_dir: bool|
        (#[trigger] (world.answer)(Step::Consult { path, is_dir })) is Verdict
    &&& forall|path: Seq<char>|
        (#[trigger] (world.answer)(Step::ListDir { path })) is Listing || (world.answer)(
            Step::ListDir { path },
        ) is ListFailed
    &&& forall|path: Seq<char>|
        (#[trigger] (world.answer)(Step::Resolve { path })) is Resolved || (world.answer)(
            Step::Resolve { path },
        ) is ResolveFailed
    &&& forall|path: Seq<char>|
        (#[trigger] (world.answer)(Step::Stat { path })) is Stat || (world.answer)(
            Step::Stat { path },
        ) is StatFailed
}

/// Every canonical path that the world can answer is in `canonical`.
pub open spec fn resolves_within(world: World, canonical: Set<Seq<char>>) -> bool {
    forall|path: Seq<char>|
        (#[trigger] (world.answer)(Step::Resolve { path })) matches Reply::Resolved(target)
            ==> canonical.contains(target)
}

/// The fuel is enough for what is left of a walk at depth `depth`: it
/// covers the levels down to the depth limit, or, with links followed, the
/// canonical paths of `canonical` that are not registered yet.
pub open spec fn enough(
    world: World,
    settings: Settings,
    canonical: Set<Seq<char>>,
    depth: usize,
    visited: Set<Seq<char>>,
    fuel: nat,
) -> bool {
    ||| fuel + depth >= settings.max_depth
    ||| {
        &&& settings.follow_symlinks
        &&& canonical.finite()
        &&& resolves_within(world, canonical)
        &&& fuel >= canonical.difference(visited).len()
    }
}

/// Registering more paths leaves the fuel enough.
proof fn lemma_enough_grows(
    world: World,
    settings: Settings,
    canonical: Set<Seq<char>>,
    depth: usize,
    visited: Set<Seq<char>>,
    more: Set<Seq<char>>,
    fuel: nat,
)
    requires
        enough(world, settings, canonical, depth, visited, fuel),
        visited.subset_of(more),
    ensures
        enough(world, settings, canonical, depth, more, fuel),
{
    if !(fuel + depth >= settings.max_depth) {
        lemma_len_subset(canonical.difference(more), canonical.difference(visited));
    }
}

/// The fuel after a new canonical path was registered.
proof fn lemma_register(canonical: Set<Seq<char>>, visited: Set<Seq<char>>, path: Seq<char>)
    requires
        canonical.finite(),
        canonical.contains(path),
        !visited.contains(path),
    ensures
        canonical.difference(visited.insert(path)).len() + 1 == canonical.difference(
            visited,
        ).len(),
{
    assert(canonical.difference(visited.insert(path)) =~= canonical.difference(visited).remove(
        path,
    ));
    assert(canonical.difference(visited).contains(path));
}

proof fn lemma_directory_ends(
    world: World,
    settings: Settings,
    canonical: Set<Seq<char>>,
    path: Seq<char>,
    meta: EntryMeta,
    depth: usize,
    visited: Set<Seq<char>>,
    fuel: nat,
)
    requires
        answers_in_kind(world),
        depth < settings.max_depth ==> (fuel + depth >= settings.max_depth || {
            &&& settings.follow_symlinks
            &&& canonical.finite()
            &&& resolves_within(world, canonical)
            &&& fuel >= canonical.difference(visited).len() + 1
        }),
    ensures
        enter_directory(world, settings, path, meta, depth, visited, fuel) matches Some(outcome)
            && visited.subset_of(outcome.visited),
    decreases fuel, 0nat, 0nat,
{
    if depth < settings.max_depth {
        match (world.answer)(Step::ListDir { path }) {
            Reply::Listing(entries) => {
                lemma_entries_end(
                    world,
                    settings,
                    canonical,
                    entries,
                    (depth + 1) as usize,
                    visited,
                    (fuel - 1) as nat,
                );
            },
            _ => {},
        }
    }
}

proof fn lemma_link_ends(
    world: World,
    settings: Settings,
    canonical: Set<Seq<char>>,
    path: Seq<char>,
    depth: usize,
    visited: Set<Seq<char>>,
    fuel: nat,
)
    requires
        answers_in_kind(world),
        settings.follow_symlinks,
        enough(world, settings, canonical, depth, visited, fuel),
    ensures
        follow_link(world, settings, path, depth, visited, fuel) matches Some(outcome)
            && visited.subset_of(outcome.visited),
    decreases fuel, 1nat, 0nat,
{
    match (world.answer)(Step::Resolve { path }) {
        Reply::Resolved(target) => {
            if !visited.contains(target) {
                let registered = visited.insert(target);
                match (world.answer)(Step::Stat { path: target }) {
                    Reply::Stat(meta) => {
                        let is_dir = meta.kind is Directory;
                        assert((world.answer)(Step::Consult { path: target, is_dir })
                            is Verdict);
                        if meta.kind is Directory {
                            if !(fuel + depth >= settings.max_depth) {
                                lemma_register(canonical, visited, target);
                            }
                            lemma_directory_ends(
                                world,
                                settings,
                                canonical,
                                target,
                                meta,
                                depth,
                                registered,
                                fuel,
                            );
                        }
                    },
                    _ => {},
                }
            }
        },
        _ => {},
    }
}

proof fn lemma_entry_ends(
    world: World,
    settings: Settings,
    canonical: Set<Seq<char>>,
    entry: Entry,
    depth: usize,
    visited: Set<Seq<char>>,
    fuel: nat,
)
    requires
        answers_in_kind(world),
        enough(world, settings, canonical, depth, visited, fuel),
    ensures
        visit_entry(world, settings, entry, depth, visited, fuel) matches Some(outcome)
            && visited.subset_of(outcome.visited),
    decreases fuel, 2nat, 0nat,
{
    match entry {
        Entry::Failed(_) => {},
        Entry::Found { path, meta } => {
            let is_dir = meta.kind is Directory;
            assert((world.answer)(Step::Consult { path, is_dir }) is Verdict);
            match meta.kind {
                EntryKind::Symlink => {
                    if settings.follow_symlinks {
                        lemma_link_ends(world, settings, canonical, path, depth, visited, fuel);
                    }
                },
                EntryKind::Directory => {
                    if settings.follow_symlinks {
                        match (world.answer)(Step::Resolve { path }) {
                            Reply::Resolved(target) => {
                                if !visited.contains(target) {
                                    if !(fuel + depth >= settings.max_depth) {
                                        lemma_register(canonical, visited, target);
                                    }
                                    lemma_directory_ends(
                                        world,
                                        settings,
                                        canonical,
                                        path,
                                        meta,
                                        depth,
                                        visited.insert(target),
                                        fuel,
                                    );
                                }
                            },
                            _ => {},
                        }
                    } else {
                        lemma_directory_ends(
                            world,
                            settings,
                            canonical,
                            path,
                            meta,
                            depth,
                            visited,
                            fuel,
                        );
                    }
                },
                _ => {},
            }
        },
    }
}

proof fn lemma_entries_end(
    world: World,
    settings: Settings,
    canonical: Set<Seq<char>>,
    entries: Seq<Entry>,
    depth: usize,
    visited: Set<Seq<char>>,
    fuel: nat,
)
    requires
        answers_in_kind(world),
        enough(world, settings, canonical, depth, visited, fuel),
    ensures
        visit_entries(world, settings, entries, depth, visited, fuel) matches Some(outcome)
            && visited.subset_of(outcome.visited),
    decreases fuel, 3nat, entries.len(),
{
    if entries.len() > 0 {
        lemma_entry_ends(world, settings, canonical, entries.first(), depth, visited, fuel);
        let first = visit_entry(world, settings, entries.first(), depth, visited, fuel)->0;
        lemma_enough_grows(world, settings, canonical, depth, visited, first.visited, fuel);
        lemma_entries_end(
            world,
            settings,
            canonical,
            entries.drop_first(),
            depth,
            first.visited,
            fuel,
        );
    }
}

/// Under a depth limit every walk comes to an end: the limit is enough
/// fuel, whatever the world holds.
pub proof fn law_depth_limit_ends_walk(
    world: World,
    root: Seq<char>,
    max_depth: usize,
    follow_symlinks: bool,
)
    requires
        answers_in_kind(world),
    ensures
        walk_events(world, root, Some(max_depth), follow_symlinks, max_depth as nat) is Some,
{
    let settings = Settings { max_depth, follow_symlinks };
    match (world.answer)(Step::ListDir { path: root }) {
        Reply::Listing(entries) => {
            lemma_entries_end(
                world,
                settings,
                Set::empty(),
                entries,
                1,
                Set::empty(),
                max_depth as nat,
            );
        },
        _ => {},
    }
}

/// With links followed, a walk over a world with finitely many canonical
/// paths comes to an end, with or without a depth limit and however the
/// links lead back: each directory entered uses up one canonical path, so
/// their number is enough fuel.
pub proof fn law_followed_links_end_walk(
    world: World,
    root: Seq<char>,
    max_depth: Option<usize>,
    canonical: Set<Seq<char>>,
)
    requires
        answers_in_kind(world),
        canonical.finite(),
        resolves_within(world, canonical),
    ensures
        walk_events(world, root, max_depth, true, canonical.len()) is Some,
{
    let settings = Settings {
        max_depth: match max_depth {
            Some(limit) => limit,
            None => usize::MAX,
        },
        follow_symlinks: true,
    };
    assert(canonical.difference(Set::empty()) =~= canonical);
    match (world.answer)(Step::ListDir { path: root }) {
        Reply::Listing(entries) => {
            lemma_entries_end(
                world,
                settings,
                canonical,
                entries,
                1,
                Set::empty(),
                canonical.len(),
            );
        },
        _ => {},
    }
}

/// A link that leads back to a directory above it does not keep the
/// machine going for ever: with links followed, over a world with finitely
/// many canonical paths, the machine is finished after `n` steps, and has
/// handed out the events of the description.
pub proof fn law_machine_ends_with_links_followed(
    world: World,
    root: Seq<char>,
    max_depth: Option<usize>,
    canonical: Set<Seq<char>>,
) -> (n: nat)
    requires
        answers_in_kind(world),
        canonical.finite(),
        resolves_within(world, canonical),
    ensures
        drive_state(world, initial(root, max_depth, true), Reply::Nothing, n).0.phase
            is Finished,
        Some(drive_events(world, initial(root, max_depth, true), Reply::Nothing, n))
            == walk_events(world, root, max_depth, true, canonical.len()),
{
    law_followed_links_end_walk(world, root, max_depth, canonical);
    law_machine_follows_description(world, root, max_depth, true, canonical.len())
}

/// Under a depth limit the machine is finished after `n` steps, and has
/// handed out the events of the description.
pub proof fn law_machine_ends_under_depth_limit(
    world: World,
    root: Seq<char>,
    max_depth: usize,
    follow_symlinks: bool,
) -> (n: nat)
    requires
        answers_in_kind(world),
    ensures
        drive_state(
            world,
            initial(root, Some(max_depth), follow_symlinks),
            Reply::Nothing,
            n,
        ).0.phase is Finished,
        Some(
            drive_events(
                world,
                initial(root, Some(max_depth), follow_symlinks),
                Reply::Nothing,
                n,
            ),
        ) == walk_events(world, root, Some(max_depth), follow_symlinks, max_depth as nat),
{
    law_depth_limit_ends_walk(world, root, max_depth, follow_symlinks);
    law_machine_follows_description(
        world,
        root,
        Some(max_depth),
        follow_symlinks,
        max_depth as nat,
    )
}

} // verus!
