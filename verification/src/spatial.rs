//! The spatial index: an R-tree over the positions of a population, rebuilt
//! for every tick.

use vstd::prelude::*;
use rstar::RTree;
use rstar::primitives::GeomWithData;
use crate::fixed::{dist2, MAX_COORD};

verus! {

/// An R-tree over points with whole-number coordinates, each stored with a
/// number.
///
/// Trusted: holds an `rstar::RTree` of `rstar::primitives::GeomWithData`, which
/// the verifier does not look into. Its contents are spoken of through
/// [`indexed_points`] only.
#[verifier::external_body]
pub struct PointTree {
    tree: RTree<GeomWithData<[i64; 2], usize>>,
}

/// The points that a tree holds: entry `k` of the sequence is the point stored
/// with the number `k`.
pub uninterp spec fn indexed_points(tree: PointTree) -> Seq<(i64, i64)>;

/// Every coordinate lies within the bound that keeps squared distances exact.
pub open spec fn in_bounds(points: Seq<(i64, i64)>) -> bool {
    forall|k: int|
        0 <= k < points.len() ==> {
            &&& -MAX_COORD <= (#[trigger] points[k]).0 <= MAX_COORD
            &&& -MAX_COORD <= points[k].1 <= MAX_COORD
        }
}

/// Builds a tree over `points`, each stored with its position in the vector.
///
/// Trusted: calls `rstar::RTree::bulk_load` on one `GeomWithData` per point,
/// which creates a tree that holds exactly the elements handed in.
#[verifier::external_body]
fn bulk_load(points: &Vec<(i64, i64)>) -> (tree: PointTree)
    requires
        in_bounds(points@),
    ensures
        indexed_points(tree) == points@,
{
    PointTree {
        tree: RTree::bulk_load(
            points.iter().enumerate().map(|(n, p)| GeomWithData::new([p.0, p.1], n)).collect(),
        ),
    }
}

/// A listing of all points by increasing distance from `q`: every stored number
/// once, each with the square of its point's distance from `q`, no entry nearer
/// than the one before it.
pub open spec fn is_distance_ordering(
    points: Seq<(i64, i64)>,
    q: (i64, i64),
    order: Seq<(usize, i64)>,
) -> bool {
    &&& order.len() == points.len()
    &&& forall|i: int|
        0 <= i < order.len() ==> (#[trigger] order[i]).0 < points.len() && order[i].1 == dist2(
            points[order[i].0 as int],
            q,
        )
    &&& forall|i: int, j: int|
        0 <= i < j < order.len() ==> (#[trigger] order[i]).0 != (#[trigger] order[j]).0
    &&& forall|i: int, j: int|
        0 <= i < j < order.len() ==> (#[trigger] order[i]).1 <= (#[trigger] order[j]).1
}

/// A selection of the points within a squared distance of `q`: the number of
/// each such point once, and of no other.
pub open spec fn is_selection_within(
    points: Seq<(i64, i64)>,
    q: (i64, i64),
    max_d2: int,
    found: Seq<usize>,
) -> bool {
    &&& forall|i: int|
        0 <= i < found.len() ==> (#[trigger] found[i]) < points.len() && dist2(
            points[found[i] as int],
            q,
        ) <= max_d2
    &&& forall|i: int, j: int|
        0 <= i < j < found.len() ==> (#[trigger] found[i]) != (#[trigger] found[j])
    &&& forall|k: int|
        0 <= k < points.len() && dist2(#[trigger] points[k], q) <= max_d2 ==> found.contains(
            k as usize,
        )
}

/// Lists the stored numbers by increasing distance from `(x, y)`, each with the
/// squared distance.
///
/// Trusted: collects `rstar::RTree::nearest_neighbor_iter_with_distance_2`,
/// which yields every element of the tree once, sorted by the squared distance
/// that `PointDistance::distance_2` gives: for points, the sum of the squared
/// coordinate differences.
#[verifier::external_body]
fn nearest_with_distance(tree: &PointTree, x: i64, y: i64) -> (order: Vec<(usize, i64)>)
    requires
        in_bounds(indexed_points(*tree)),
        -MAX_COORD <= x <= MAX_COORD,
        -MAX_COORD <= y <= MAX_COORD,
    ensures
        is_distance_ordering(indexed_points(*tree), (x, y), order@),
{
    tree.tree.nearest_neighbor_iter_with_distance_2([x, y]).map(|(e, d2)| (e.data, d2)).collect()
}

/// Lists the stored numbers of the points within a squared distance of `(x, y)`.
///
/// Trusted: collects `rstar::RTree::locate_within_distance`, which returns, in
/// no stated order, each element whose squared distance from the query point is
/// at most the squared radius handed in.
#[verifier::external_body]
fn locate_within_distance(tree: &PointTree, x: i64, y: i64, max_d2: i64) -> (found: Vec<usize>)
    requires
        in_bounds(indexed_points(*tree)),
        -MAX_COORD <= x <= MAX_COORD,
        -MAX_COORD <= y <= MAX_COORD,
        0 <= max_d2,
    ensures
        is_selection_within(indexed_points(*tree), (x, y), max_d2 as int, found@),
{
    tree.tree.locate_within_distance([x, y], max_d2).map(|e| e.data).collect()
}

/// Point `b` lies within the squared distance `max_d2` of point `a`.
pub open spec fn is_close(points: Seq<(i64, i64)>, a: int, b: int, max_d2: int) -> bool {
    dist2(points[b], points[a]) <= max_d2
}

/// A listing of the pairs of points within a squared distance of each other:
/// each such pair once, the lower number first, and no other pair.
pub open spec fn is_pairing_within(
    points: Seq<(i64, i64)>,
    max_d2: int,
    pairs: Seq<(usize, usize)>,
) -> bool {
    &&& forall|t: int|
        0 <= t < pairs.len() ==> (#[trigger] pairs[t]).0 < pairs[t].1 < points.len() && is_close(
            points,
            pairs[t].0 as int,
            pairs[t].1 as int,
            max_d2,
        )
    &&& forall|s: int, t: int|
        0 <= s < t < pairs.len() ==> (#[trigger] pairs[s]) != (#[trigger] pairs[t])
    &&& forall|a: int, b: int|
        0 <= a < b < points.len() && #[trigger] is_close(points, a, b, max_d2) ==> pairs.contains(
            (a as usize, b as usize),
        )
}

/// A snapshot of positions together with the tree built over it.
pub struct SpatialIndex {
    tree: PointTree,
    points: Vec<(i64, i64)>,
}

impl SpatialIndex {
    /// The positions indexed: entry `k` belongs to organism `k`.
    pub closed spec fn view(&self) -> Seq<(i64, i64)> {
        self.points@
    }

    /// The tree holds the snapshot, and the snapshot is within bounds.
    pub closed spec fn wf(&self) -> bool {
        &&& indexed_points(self.tree) == self.points@
        &&& in_bounds(self.points@)
    }

    /// Builds the index over `points` in one go.
    pub fn build(points: Vec<(i64, i64)>) -> (index: SpatialIndex)
        requires
            in_bounds(points@),
        ensures
            index.wf(),
            index@ == points@,
    {
        let tree = bulk_load(&points);
        SpatialIndex { tree, points }
    }

    /// Number of points indexed.
    pub fn len(&self) -> (n: usize)
        ensures
            n == self@.len(),
    {
        self.points.len()
    }

    /// The indexed position of organism `k`.
    pub fn point(&self, k: usize) -> (p: (i64, i64))
        requires
            self.wf(),
            k < self@.len(),
        ensures
            p == self@[k as int],
            -MAX_COORD <= p.0 <= MAX_COORD,
            -MAX_COORD <= p.1 <= MAX_COORD,
    {
        self.points[k]
    }

    /// All organisms by increasing distance from `q`, each with the squared
    /// distance. Which of two equally distant organisms comes first is open.
    pub fn neighbors(&self, q: (i64, i64)) -> (order: Vec<(usize, i64)>)
        requires
            self.wf(),
            -MAX_COORD <= q.0 <= MAX_COORD,
            -MAX_COORD <= q.1 <= MAX_COORD,
        ensures
            is_distance_ordering(self@, q, order@),
    {
        nearest_with_distance(&self.tree, q.0, q.1)
    }

    /// The organisms within the squared distance `max_d2` of `q`, in no stated
    /// order.
    pub fn within(&self, q: (i64, i64), max_d2: i64) -> (found: Vec<usize>)
        requires
            self.wf(),
            -MAX_COORD <= q.0 <= MAX_COORD,
            -MAX_COORD <= q.1 <= MAX_COORD,
            0 <= max_d2,
        ensures
            is_selection_within(self@, q, max_d2 as int, found@),
    {
        locate_within_distance(&self.tree, q.0, q.1, max_d2)
    }
    /// Every unordered pair of organisms within the squared distance `max_d2`
    /// of each other, each pair once and with the lower number first. Each
    /// organism in turn is paired with those found around it that come after
    /// it, so that no pair is listed from both of its ends.
    pub fn pairs_within(&self, max_d2: i64) -> (pairs: Vec<(usize, usize)>)
        requires
            self.wf(),
            0 <= max_d2,
        ensures
            is_pairing_within(self@, max_d2 as int, pairs@),
    {
        let n = self.points.len();
        let mut pairs: Vec<(usize, usize)> = Vec::new();
        let mut f: usize = 0;
        while f < n
            invariant
                self.wf(),
                n == self@.len(),
                f <= n,
                0 <= max_d2,
                forall|t: int|
                    0 <= t < pairs@.len() ==> (#[trigger] pairs@[t]).0 < pairs@[t].1 < n
                        && pairs@[t].0 < f && is_close(
                        self@,
                        pairs@[t].0 as int,
                        pairs@[t].1 as int,
                        max_d2 as int,
                    ),
                forall|s: int, t: int|
                    0 <= s < t < pairs@.len() ==> (#[trigger] pairs@[s]) != (#[trigger] pairs@[t]),
                forall|a: int, b: int|
                    0 <= a < f && a < b < n && #[trigger] is_close(self@, a, b, max_d2 as int)
                        ==> pairs@.contains((a as usize, b as usize)),
            decreases n - f,
        {
            let q = self.point(f);
            let found = self.within(q, max_d2);
            let mut i: usize = 0;
            while i < found.len()
                invariant
                    self.wf(),
                    n == self@.len(),
                    f < n,
                    0 <= max_d2,
                    i <= found@.len(),
                    q == self@[f as int],
                    is_selection_within(self@, q, max_d2 as int, found@),
                    forall|t: int|
                        0 <= t < pairs@.len() ==> (#[trigger] pairs@[t]).0 < pairs@[t].1 < n
                            && pairs@[t].0 <= f && is_close(
                            self@,
                            pairs@[t].0 as int,
                            pairs@[t].1 as int,
                            max_d2 as int,
                        ),
                    forall|s: int, t: int|
                        0 <= s < t < pairs@.len() ==> (#[trigger] pairs@[s]) != (
                        #[trigger] pairs@[t]),
                    forall|a: int, b: int|
                        0 <= a < f && a < b < n && #[trigger] is_close(self@, a, b, max_d2 as int)
                            ==> pairs@.contains((a as usize, b as usize)),
                    forall|t: int|
                        0 <= t < pairs@.len() && (#[trigger] pairs@[t]).0 == f ==> exists|ii: int|
                            0 <= ii < i && #[trigger] found@[ii] == pairs@[t].1,
                    forall|ii: int|
                        0 <= ii < i && (#[trigger] found@[ii]) > f ==> pairs@.contains(
                            (f, found@[ii]),
                        ),
                decreases found@.len() - i,
            {
                let s = found[i];
                if s > f {
                    let ghost prev = pairs@;
                    pairs.push((f, s));
                    proof {
                        assert forall|x: (usize, usize)| prev.contains(x) implies pairs@.contains(
                            x,
                        ) by {
                            let w = choose|w: int| 0 <= w < prev.len() && prev[w] == x;
                            assert(pairs@[w] == x);
                        }
                        assert(pairs@[prev.len() as int] == (f, s));
                        assert(found@[i as int] == s);
                    }
                }
                i = i + 1;
            }
            proof {
                assert forall|b: int|
                    f < b < n && #[trigger] is_close(self@, f as int, b, max_d2 as int) implies pairs@.contains(
                    (f, b as usize),
                ) by {
                    assert(dist2(self@[b], q) <= max_d2);
                    assert(found@.contains(b as usize));
                    let ii = choose|ii: int| 0 <= ii < found@.len() && found@[ii] == b as usize;
                    assert(found@[ii] > f);
                }
            }
            f = f + 1;
        }
        pairs
    }
}

} // verus!
