//! Totals over a walk: how many files, directories and links were seen,
//! how many bytes the files hold, which file is the largest, and how deep
//! the walk went.

use vstd::prelude::*;
use crate::error::{failures, Failure, FsError};
use crate::walk::{EntryMeta, FsVisitor};

verus! {

/// The totals of a walk.
#[derive(Debug)]
pub struct FsStats {
    pub total_files: usize,
    pub total_dirs: usize,
    pub total_symlinks: usize,
    pub total_size: u64,
    pub largest_file: Option<(String, u64)>,
    pub max_depth: usize,
}

/// The totals as the contracts see them.
pub struct Stats {
    pub total_files: usize,
    pub total_dirs: usize,
    pub total_symlinks: usize,
    pub total_size: u64,
    pub largest_file: Option<(Seq<char>, u64)>,
    pub max_depth: usize,
}

impl View for FsStats {
    type V = Stats;

    open spec fn view(&self) -> Stats {
        Stats {
            total_files: self.total_files,
            total_dirs: self.total_dirs,
            total_symlinks: self.total_symlinks,
            total_size: self.total_size,
            largest_file: match self.largest_file {
                Some((path, size)) => Some((path@, size)),
                None => None,
            },
            max_depth: self.max_depth,
        }
    }
}

/// One more, as far as the counter reaches.
pub open spec fn one_more(count: usize) -> usize {
    if count < usize::MAX {
        (count + 1) as usize
    } else {
        count
    }
}

/// The greater of two depths.
pub open spec fn deepest(a: usize, b: usize) -> usize {
    if a >= b {
        a
    } else {
        b
    }
}

/// The totals before anything was seen.
pub open spec fn no_stats() -> Stats {
    Stats {
        total_files: 0,
        total_dirs: 0,
        total_symlinks: 0,
        total_size: 0,
        largest_file: None,
        max_depth: 0,
    }
}

/// The totals after one more file. The counters stop at the greatest value
/// of their type. The largest file is replaced only by a larger one, so
/// among files of equal size the first one seen stays.
pub open spec fn with_file(s: Stats, path: Seq<char>, size: u64, depth: usize) -> Stats {
    Stats {
        total_files: one_more(s.total_files),
        total_size: if s.total_size + size > u64::MAX {
            u64::MAX
        } else {
            (s.total_size + size) as u64
        },
        largest_file: match s.largest_file {
            Some((_, largest)) if size <= largest => s.largest_file,
            _ => Some((path, size)),
        },
        max_depth: deepest(s.max_depth, depth),
        ..s
    }
}

/// The totals after one more directory.
pub open spec fn with_dir(s: Stats, depth: usize) -> Stats {
    Stats { total_dirs: one_more(s.total_dirs), max_depth: deepest(s.max_depth, depth), ..s }
}

/// The totals after one more symbolic link.
pub open spec fn with_symlink(s: Stats) -> Stats {
    Stats { total_symlinks: one_more(s.total_symlinks), ..s }
}

impl Default for FsStats {
    fn default() -> (r: FsStats)
        ensures
            r@ == no_stats(),
    {
        FsStats {
            total_files: 0,
            total_dirs: 0,
            total_symlinks: 0,
            total_size: 0,
            largest_file: None,
            max_depth: 0,
        }
    }
}

/// The totals of a walk together with the errors met on the way.
#[derive(Debug)]
pub struct FsStatsReport {
    pub stats: FsStats,
    pub errors: Vec<FsError>,
}

/// The visitor that keeps the totals.
pub struct StatsVisitor {
    stats: FsStats,
    errs: Vec<FsError>,
}

fn count(n: usize) -> (r: usize)
    ensures
        r == one_more(n),
{
    if n < usize::MAX {
        n + 1
    } else {
        n
    }
}

fn deeper_of(a: usize, b: usize) -> (r: usize)
    ensures
        r == deepest(a, b),
{
    if a >= b {
        a
    } else {
        b
    }
}

impl StatsVisitor {
    /// The totals so far.
    pub closed spec fn stats(&self) -> Stats {
        self.stats@
    }

    /// The errors so far, in the order in which they came.
    pub closed spec fn errors(&self) -> Seq<Failure> {
        failures(self.errs@)
    }

    /// A visitor that has seen nothing yet.
    pub fn new() -> (r: Self)
        ensures
            r.stats() == no_stats(),
            r.errors() == Seq::<Failure>::empty(),
    {
        let visitor = StatsVisitor { stats: FsStats::default(), errs: Vec::new() };
        assert(visitor.errors() =~= Seq::<Failure>::empty());
        visitor
    }

    /// The totals and the errors, at the end of a walk.
    pub fn into_report(self) -> (r: FsStatsReport)
        ensures
            r.stats@ == self.stats(),
            failures(r.errors@) == self.errors(),
    {
        FsStatsReport { stats: self.stats, errors: self.errs }
    }
}

impl FsVisitor for StatsVisitor {
    fn visit_file(&mut self, path: &str, meta: &EntryMeta, depth: usize)
        ensures
            final(self).stats() == with_file(old(self).stats(), path@, meta.size, depth),
            final(self).errors() == old(self).errors(),
    {
        let size = meta.len();
        self.stats.total_files = count(self.stats.total_files);
        self.stats.total_size = self.stats.total_size.saturating_add(size);
        let larger = match &self.stats.largest_file {
            Some((_, largest)) => size > *largest,
            None => true,
        };
        if larger {
            self.stats.largest_file = Some((path.to_owned(), size));
        }
        self.stats.max_depth = deeper_of(self.stats.max_depth, depth);
    }

    fn enter_dir(&mut self, path: &str, meta: &EntryMeta, depth: usize)
        ensures
            final(self).stats() == with_dir(old(self).stats(), depth),
            final(self).errors() == old(self).errors(),
    {
        self.stats.total_dirs = count(self.stats.total_dirs);
        self.stats.max_depth = deeper_of(self.stats.max_depth, depth);
    }

    fn exit_dir(&mut self, path: &str, meta: &EntryMeta, depth: usize)
        ensures
            final(self).stats() == old(self).stats(),
            final(self).errors() == old(self).errors(),
    {
    }

    fn visit_symlink(&mut self, path: &str, depth: usize)
        ensures
            final(self).stats() == with_symlink(old(self).stats()),
            final(self).errors() == old(self).errors(),
    {
        self.stats.total_symlinks = count(self.stats.total_symlinks);
    }

    fn on_error(&mut self, error: FsError)
        ensures
            final(self).stats() == old(self).stats(),
            final(self).errors() == old(self).errors().push(error@),
    {
        assert(failures(self.errs@.push(error)) =~= failures(self.errs@).push(error@));
        self.errs.push(error);
    }
}

} // verus!
