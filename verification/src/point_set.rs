use vstd::prelude::*;

use crate::point::Point;

verus! {

/// True iff the vector holds the given point.
pub fn contains_point(points: &Vec<Point>, p: Point) -> (b: bool)
    ensures
        b == points@.contains(p),
{
    let mut i: usize = 0;
    while i < points.len()
        invariant
            0 <= i <= points@.len(),
            forall|k: int| 0 <= k < i ==> points@[k] != p,
        decreases points@.len() - i,
    {
        if points[i] == p {
            return true;
        }
        i += 1;
    }
    false
}

/// Pushing a point that a duplicate-free sequence lacks keeps it
/// duplicate-free.
pub proof fn lemma_push_unique(s: Seq<Point>, p: Point)
    requires
        s.no_duplicates(),
        !s.contains(p),
    ensures
        s.push(p).no_duplicates(),
{
    assert(forall|k: int| 0 <= k < s.len() ==> s.push(p)[k] == s[k]);
}

/// The set of grid cells that a field-of-view computation found visible: a
/// duplicate-free vector of points, read in specifications as a `Set`.
pub struct PointSet {
    pub points: Vec<Point>,
}

impl View for PointSet {
    type V = Set<Point>;

    open spec fn view(&self) -> Set<Point> {
        self.points@.to_set()
    }
}

impl PointSet {
    /// No point is held twice, so the vector's length is the set's size.
    pub open spec fn wf(self) -> bool {
        self.points@.no_duplicates()
    }

    pub fn new() -> (s: PointSet)
        ensures
            s@ == Set::<Point>::empty(),
            s.wf(),
    {
        let s = PointSet { points: Vec::new() };
        proof {
            assert(s@ =~= Set::<Point>::empty());
        }
        s
    }

    pub fn contains(&self, p: Point) -> (b: bool)
        ensures
            b == self@.contains(p),
    {
        contains_point(&self.points, p)
    }

    /// Inserts the point; the set gains it, and a well formed set stays so.
    pub fn insert(&mut self, p: Point)
        ensures
            final(self)@ == old(self)@.insert(p),
            old(self).wf() ==> final(self).wf(),
    {
        let ghost pre = self.points@;
        if !contains_point(&self.points, p) {
            proof {
                if pre.no_duplicates() {
                    lemma_push_unique(pre, p);
                }
            }
            self.points.push(p);
            proof {
                assert(self@ =~= old(self)@.insert(p)) by {
                    assert(forall|q: Point|
                        self.points@.contains(q) <==> (pre.contains(q) || q == p)) by {
                        assert(forall|k: int|
                            0 <= k < pre.len() ==> self.points@[k] == pre[k]);
                        assert(self.points@[pre.len() as int] == p);
                    }
                }
            }
        } else {
            proof {
                assert(self@ =~= old(self)@.insert(p));
            }
        }
    }

    /// How many cells the set holds.
    pub fn len(&self) -> (n: usize)
        requires
            self.wf(),
        ensures
            n == self@.len(),
    {
        proof {
            self.points@.unique_seq_to_set();
        }
        self.points.len()
    }
}

} // verus!
