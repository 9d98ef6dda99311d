//! Similarity of two names by edit distance.

use vstd::prelude::*;
use vstd::string::StringSliceAdditionalSpecFns;

verus! {

/// The least of three numbers.
pub open spec fn least(a: nat, b: nat, c: nat) -> nat {
    if a <= b && a <= c {
        a
    } else if b <= c {
        b
    } else {
        c
    }
}

/// The Levenshtein distance of two byte strings: the least number of
/// single bytes to delete, insert or replace that turns `a` into `b`.
pub open spec fn edit_distance(a: Seq<u8>, b: Seq<u8>) -> nat
    decreases a.len() + b.len(),
{
    if a.len() == 0 {
        b.len()
    } else if b.len() == 0 {
        a.len()
    } else {
        least(
            edit_distance(a.drop_last(), b) + 1,
            edit_distance(a, b.drop_last()) + 1,
            edit_distance(a.drop_last(), b.drop_last()) + if a.last() == b.last() {
                0nat
            } else {
                1nat
            },
        )
    }
}

/// The distance is at most the length of the longer string.
pub proof fn law_distance_bound(a: Seq<u8>, b: Seq<u8>)
    ensures
        edit_distance(a, b) <= a.len() || edit_distance(a, b) <= b.len(),
    decreases a.len() + b.len(),
{
    if a.len() > 0 && b.len() > 0 {
        law_distance_bound(a.drop_last(), b);
        law_distance_bound(a, b.drop_last());
        law_distance_bound(a.drop_last(), b.drop_last());
    }
}

/// A string is at distance 0 from itself.
pub proof fn law_distance_to_self(a: Seq<u8>)
    ensures
        edit_distance(a, a) == 0,
    decreases a.len(),
{
    if a.len() > 0 {
        law_distance_to_self(a.drop_last());
    }
}

/// Computes edit distances. The two rows of the table are kept between
/// calls, so that they are allocated once.
pub struct Levenshtein {
    prev: Vec<usize>,
    curr: Vec<usize>,
}

impl Levenshtein {
    /// How many cells each of the two rows holds.
    pub closed spec fn capacity(&self) -> nat {
        if self.prev@.len() <= self.curr@.len() {
            self.prev@.len()
        } else {
            self.curr@.len()
        }
    }

    /// A computer of distances with no rows allocated yet.
    pub fn new() -> (r: Self)
        ensures
            r.capacity() == 0,
    {
        Levenshtein { prev: Vec::new(), curr: Vec::new() }
    }

    /// The edit distance between the bytes of `query` and those of
    /// `candidate`.
    pub fn distance(&mut self, query: &str, candidate: &str) -> (r: usize)
        ensures
            r == edit_distance(query.spec_bytes(), candidate.spec_bytes()),
            final(self).capacity() >= old(self).capacity(),
            final(self).capacity() >= candidate.spec_bytes().len(),
    {
        let q = query.as_bytes();
        let c = candidate.as_bytes();
        let n = q.len();
        let m = c.len();
        if self.prev.len() < m {
            self.prev.resize(m, 0);
        }
        if self.curr.len() < m {
            self.curr.resize(m, 0);
        }
        // The cell in column 0 of a row is the number of the row; the rows
        // hold the cells of the columns 1 to m.
        let mut j: usize = 0;
        while j < m
            invariant
                j <= m,
                self.prev@.len() >= m,
                self.curr@.len() >= m,
                self.prev@.len() >= old(self).prev@.len(),
                self.curr@.len() >= old(self).curr@.len(),
                forall|k: int| 0 <= k < j ==> self.prev@[k] == k + 1,
            decreases m - j,
        {
            self.prev.set(j, j + 1);
            j = j + 1;
        }
        assert forall|k: int| 1 <= k <= m implies self.prev@[k - 1] == edit_distance(
            q@.take(0),
            c@.take(k),
        ) by {}
        let mut i: usize = 0;
        while i < n
            invariant
                i <= n,
                n == q@.len(),
                m == c@.len(),
                self.prev@.len() >= m,
                self.curr@.len() >= m,
                self.prev@.len() >= old(self).prev@.len() || self.prev@.len() >= old(
                    self,
                ).curr@.len(),
                self.curr@.len() >= old(self).prev@.len() || self.curr@.len() >= old(
                    self,
                ).curr@.len(),
                forall|k: int|
                    1 <= k <= m ==> self.prev@[k - 1] == edit_distance(
                        q@.take(i as int),
                        c@.take(k),
                    ),
            decreases n - i,
        {
            let row: usize = i + 1;
            let qi = q[i];
            let mut left: usize = row;
            let mut diag: usize = i;
            let ghost rows = (self.prev@.len(), self.curr@.len());
            let mut j: usize = 0;
            while j < m
                invariant
                    i < n,
                    row == i + 1,
                    j <= m,
                    n == q@.len(),
                    m == c@.len(),
                    qi == q@[i as int],
                    self.prev@.len() == rows.0,
                    self.curr@.len() == rows.1,
                    rows.0 >= m,
                    rows.1 >= m,
                    left == edit_distance(q@.take(row as int), c@.take(j as int)),
                    diag == edit_distance(q@.take(i as int), c@.take(j as int)),
                    forall|k: int|
                        1 <= k <= m ==> self.prev@[k - 1] == edit_distance(
                            q@.take(i as int),
                            c@.take(k),
                        ),
                    forall|k: int|
                        1 <= k <= j ==> self.curr@[k - 1] == edit_distance(
                            q@.take(row as int),
                            c@.take(k),
                        ),
                decreases m - j,
            {
                let up = self.prev[j];
                let cost: usize = if qi == c[j] {
                    0
                } else {
                    1
                };
                proof {
                    let a = q@.take(row as int);
                    let b = c@.take(j + 1);
                    assert(a.drop_last() == q@.take(i as int));
                    assert(b.drop_last() == c@.take(j as int));
                    assert(a.last() == qi);
                    assert(b.last() == c@[j as int]);
                    law_distance_bound(q@.take(i as int), c@.take(j as int));
                }
                let side: usize = if up <= left {
                    up
                } else {
                    left
                };
                let replaced: usize = diag + cost;
                let best: usize = if side < replaced {
                    side + 1
                } else {
                    replaced
                };
                self.curr.set(j, best);
                diag = up;
                left = best;
                j = j + 1;
            }
            core::mem::swap(&mut self.prev, &mut self.curr);
            i = i + 1;
        }
        assert(q@.take(n as int) == q@);
        assert(c@.take(m as int) == c@);
        if m == 0 {
            n
        } else {
            self.prev[m - 1]
        }
    }
}

} // verus!
