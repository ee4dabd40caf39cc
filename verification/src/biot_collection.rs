//! The population and its tick.

use vstd::prelude::*;
use crate::biot::{combat, is_step, spec_crowding, spec_stronger, Biot};
use crate::fixed::{is_unit_toward, normalize, MAX_COORD};
use crate::spatial::{is_distance_ordering, is_pairing_within, SpatialIndex};

verus! {

/// Squared radius, in thousandths, within which two organisms may fight:
/// fifty units.
pub const COMBAT_RADIUS_2: i64 = 2_500_000_000;

/// The squared distance up to which an organism perceives others: forty units
/// per point of intelligence.
pub open spec fn perception2(b: Biot) -> int {
    1_600_000_000 * (b.intelligence * b.intelligence)
}

/// The first organism from entry `i` of a listing by distance on, other than
/// `n` itself, that `n` is stronger than; none once the listing passes beyond
/// what `n` perceives.
pub open spec fn target_from(
    biots: Seq<Biot>,
    n: int,
    order: Seq<(usize, i64)>,
    i: int,
) -> Option<usize>
    decreases order.len() - i,
{
    if i < 0 || i >= order.len() {
        None
    } else if order[i].0 == n {
        target_from(biots, n, order, i + 1)
    } else if order[i].1 > perception2(biots[n]) {
        None
    } else if spec_stronger(biots[n], biots[order[i].0 as int]) {
        Some(order[i].0)
    } else {
        target_from(biots, n, order, i + 1)
    }
}

/// `dir` is the feeding direction of organism `n`, given a listing of all
/// organisms by distance from it: the unit vector from its place to the indexed
/// place of its target, where it has intelligence and a target; none otherwise.
pub open spec fn is_feed_direction(
    biots: Seq<Biot>,
    points: Seq<(i64, i64)>,
    n: int,
    order: Seq<(usize, i64)>,
    dir: Option<(i64, i64)>,
) -> bool {
    match target_from(biots, n, order, 0) {
        Some(t) if biots[n].intelligence > 0 => dir.is_some() && is_unit_toward(
            points[t as int].0 - biots[n].pos.0,
            points[t as int].1 - biots[n].pos.1,
            dir.unwrap(),
        ),
        _ => dir.is_none(),
    }
}

/// The organisms after the meetings listed in `pairs` have been resolved in
/// turn.
pub open spec fn after_combats(biots: Seq<Biot>, pairs: Seq<(usize, usize)>) -> Seq<Biot>
    decreases pairs.len(),
{
    if pairs.len() == 0 {
        biots
    } else {
        let before = after_combats(biots, pairs.drop_last());
        let i = pairs.last().0 as int;
        let j = pairs.last().1 as int;
        before.update(i, combat(before[i], before[j]).0).update(j, combat(before[i], before[j]).1)
    }
}

/// The organisms that are not dead, in their order.
pub open spec fn survivors(biots: Seq<Biot>) -> Seq<Biot>
    decreases biots.len(),
{
    if biots.len() == 0 {
        Seq::empty()
    } else if biots.last().spec_dead() {
        survivors(biots.drop_last())
    } else {
        survivors(biots.drop_last()).push(biots.last())
    }
}

/// Survivors are not dead, come from the population, and are no more than it.
pub proof fn lemma_survivors(biots: Seq<Biot>)
    ensures
        survivors(biots).len() <= biots.len(),
        forall|k: int|
            0 <= k < survivors(biots).len() ==> !(#[trigger] survivors(biots)[k]).spec_dead()
                && biots.contains(survivors(biots)[k]),
    decreases biots.len(),
{
    if biots.len() > 0 {
        let rest = biots.drop_last();
        lemma_survivors(rest);
        assert forall|k: int| 0 <= k < survivors(biots).len() implies !(
        #[trigger] survivors(biots)[k]).spec_dead() && biots.contains(survivors(biots)[k]) by {
            if k < survivors(rest).len() {
                let w = choose|w: int| 0 <= w < rest.len() && rest[w] == survivors(rest)[k];
                assert(biots[w] == survivors(rest)[k]);
            } else {
                assert(biots[biots.len() - 1] == biots.last());
            }
        }
    }
}

/// The places of the organisms, in their order.
pub open spec fn places(biots: Seq<Biot>) -> Seq<(i64, i64)> {
    Seq::new(biots.len(), |k: int| biots[k].pos)
}

/// The offspring that are there, in their order.
pub open spec fn present(children: Seq<Option<Biot>>) -> Seq<Biot>
    decreases children.len(),
{
    if children.len() == 0 {
        Seq::empty()
    } else {
        match children.last() {
            Some(child) => present(children.drop_last()).push(child),
            None => present(children.drop_last()),
        }
    }
}

/// `after` and `child` are a possible outcome of the tick of organism `k` of
/// the population `before`, indexed at `points`: it picks its feeding direction
/// and finds its sixth-nearest neighbour from listings by distance of the
/// indexed places, and takes its step with them.
pub open spec fn is_stepped(
    before: Seq<Biot>,
    points: Seq<(i64, i64)>,
    k: int,
    after: Biot,
    child: Option<Biot>,
    width: i64,
    height: i64,
) -> bool {
    exists|seen: Seq<(usize, i64)>, near: Seq<(usize, i64)>, dir: Option<(i64, i64)>|
        #![trigger is_feed_direction(before, points, k, seen, dir), is_step(before[k], after, child, spec_crowding(near), dir, width, height)]
        is_distance_ordering(points, before[k].pos, seen) && is_feed_direction(
            before,
            points,
            k,
            seen,
            dir,
        ) && is_distance_ordering(points, before[k].pos, near) && is_step(
            before[k],
            after,
            child,
            spec_crowding(near),
            dir,
            width,
            height,
        )
}

/// `after` is the outcome of one tick of the population `before` in which the
/// organisms became `stepped` and bore `children`, and in which the meetings
/// listed in `pairs` were resolved: every organism takes its step against the
/// places before the tick; the pairs are those within the combat radius of each
/// other, by those places, each pair once; the dead leave, and the offspring
/// join the end.
pub open spec fn is_tick_through(
    before: Seq<Biot>,
    after: Seq<Biot>,
    stepped: Seq<Biot>,
    children: Seq<Option<Biot>>,
    pairs: Seq<(usize, usize)>,
    width: i64,
    height: i64,
) -> bool {
    &&& stepped.len() == before.len()
    &&& children.len() == before.len()
    &&& forall|k: int|
        0 <= k < before.len() ==> is_stepped(
            before,
            places(before),
            k,
            #[trigger] stepped[k],
            children[k],
            width,
            height,
        )
    &&& is_pairing_within(places(before), COMBAT_RADIUS_2 as int, pairs)
    &&& after == survivors(after_combats(stepped, pairs)) + present(children)
}

/// `after` is a possible outcome of one tick of the population `before`.
pub open spec fn is_tick(before: Seq<Biot>, after: Seq<Biot>, width: i64, height: i64) -> bool {
    exists|stepped: Seq<Biot>, children: Seq<Option<Biot>>, pairs: Seq<(usize, usize)>| #[trigger]
        is_tick_through(before, after, stepped, children, pairs, width, height)
}

/// The target of an organism depends on the others' attack and defense alone:
/// it is the same before and after some of them have taken their step.
pub proof fn lemma_target_unchanged(
    now: Seq<Biot>,
    before: Seq<Biot>,
    n: int,
    order: Seq<(usize, i64)>,
    i: int,
)
    requires
        0 <= n < now.len() == before.len(),
        now[n] == before[n],
        forall|j: int|
            0 <= j < now.len() ==> (#[trigger] now[j]).attack == before[j].attack
                && now[j].defense == before[j].defense,
        forall|t: int| 0 <= t < order.len() ==> (#[trigger] order[t]).0 < now.len(),
    ensures
        target_from(now, n, order, i) == target_from(before, n, order, i),
    decreases order.len() - i,
{
    if 0 <= i < order.len() {
        lemma_target_unchanged(now, before, n, order, i + 1);
    }
}

/// The target that organism `n` picks from a listing of all organisms by
/// distance: the nearest one within its perception that it is stronger than.
pub fn choose_target(biots: &Vec<Biot>, n: usize, order: &Vec<(usize, i64)>) -> (target: Option<
    usize,
>)
    requires
        n < biots@.len(),
        forall|k: int| 0 <= k < biots@.len() ==> (#[trigger] biots@[k]).wf(),
        forall|i: int| 0 <= i < order@.len() ==> (#[trigger] order@[i]).0 < biots@.len(),
    ensures
        target == target_from(biots@, n as int, order@, 0),
        target matches Some(t) ==> t < biots@.len() && t != n,
{
    let me = biots[n];
    let wits: i64 = me.intelligence as i64;
    assert(0 <= wits * wits <= 130 * 130) by (nonlinear_arith)
        requires
            0 <= wits <= 130,
    ;
    let range: i64 = 1_600_000_000 * (wits * wits);
    let mut i: usize = 0;
    while i < order.len()
        invariant
            i <= order@.len(),
            n < biots@.len(),
            me == biots@[n as int],
            range == perception2(me),
            forall|k: int| 0 <= k < biots@.len() ==> (#[trigger] biots@[k]).wf(),
            forall|k: int| 0 <= k < order@.len() ==> (#[trigger] order@[k]).0 < biots@.len(),
            target_from(biots@, n as int, order@, 0) == target_from(
                biots@,
                n as int,
                order@,
                i as int,
            ),
        decreases order@.len() - i,
    {
        let (other, d2) = order[i];
        if other != n {
            if d2 > range {
                return None;
            }
            if me.stronger(&biots[other]) {
                return Some(other);
            }
        }
        i = i + 1;
    }
    None
}

/// The direction in which organism `n` would feed: the unit vector from its
/// place to the indexed place of its target. Organisms without intelligence
/// have none.
pub fn feed_direction(biots: &Vec<Biot>, index: &SpatialIndex, n: usize) -> (dir: Option<
    (i64, i64),
>)
    requires
        index.wf(),
        index@.len() == biots@.len(),
        n < biots@.len(),
        forall|k: int| 0 <= k < biots@.len() ==> (#[trigger] biots@[k]).wf(),
    ensures
        biots@[n as int].intelligence == 0 ==> dir.is_none(),
        dir matches Some(d) ==> crate::biot::unit_bounded(d),
        exists|order: Seq<(usize, i64)>| #[trigger]
            is_distance_ordering(index@, biots@[n as int].pos, order) && is_feed_direction(
                biots@,
                index@,
                n as int,
                order,
                dir,
            ),
{
    let me = biots[n];
    let order = index.neighbors(me.pos);
    if me.intelligence > 0 {
        match choose_target(biots, n, &order) {
            Some(t) => {
                let p = index.point(t);
                Some(normalize(p.0 - me.pos.0, p.1 - me.pos.1))
            },
            None => None,
        }
    } else {
        None
    }
}

/// Resolves the listed meetings in turn.
pub fn resolve_combat(biots: &mut Vec<Biot>, pairs: &Vec<(usize, usize)>)
    requires
        forall|k: int| 0 <= k < old(biots)@.len() ==> (#[trigger] old(biots)@[k]).wf(),
        forall|t: int|
            0 <= t < pairs@.len() ==> (#[trigger] pairs@[t]).0 < old(biots)@.len() && pairs@[t].1
                < old(biots)@.len(),
    ensures
        final(biots)@ == after_combats(old(biots)@, pairs@),
        final(biots)@.len() == old(biots)@.len(),
        forall|k: int|
            0 <= k < final(biots)@.len() ==> (#[trigger] final(biots)@[k]).wf() && final(biots)@[k].pos == old(biots)@[k].pos,
{
    let mut t: usize = 0;
    while t < pairs.len()
        invariant
            t <= pairs@.len(),
            biots@.len() == old(biots)@.len(),
            biots@ == after_combats(old(biots)@, pairs@.take(t as int)),
            forall|k: int|
                0 <= k < biots@.len() ==> (#[trigger] biots@[k]).wf() && biots@[k].pos == old(biots)@[k].pos,
            forall|t: int|
                0 <= t < pairs@.len() ==> (#[trigger] pairs@[t]).0 < old(biots)@.len()
                    && pairs@[t].1 < old(biots)@.len(),
        decreases pairs@.len() - t,
    {
        let (i, j) = pairs[t];
        proof {
            assert(pairs@.take(t + 1).drop_last() =~= pairs@.take(t as int));
        }
        Biot::interact(biots, i, j);
        t = t + 1;
    }
    proof {
        assert(pairs@.take(pairs@.len() as int) =~= pairs@);
    }
}

/// Removes the dead.
pub fn prune(biots: &mut Vec<Biot>)
    ensures
        final(biots)@ == survivors(old(biots)@),
{
    let mut kept: Vec<Biot> = Vec::new();
    let mut k: usize = 0;
    while k < biots.len()
        invariant
            k <= biots@.len(),
            biots@ == old(biots)@,
            kept@ == survivors(biots@.take(k as int)),
        decreases biots@.len() - k,
    {
        proof {
            assert(biots@.take(k + 1).drop_last() =~= biots@.take(k as int));
        }
        if !biots[k].dead() {
            kept.push(biots[k]);
        }
        k = k + 1;
    }
    proof {
        assert(biots@.take(biots@.len() as int) =~= biots@);
    }
    *biots = kept;
}

/// A collection of organisms in a world of a given size. Responsible for
/// handling the interactions between them.
pub struct BiotCollection {
    biots: Vec<Biot>,
    width: i64,
    height: i64,
}

impl BiotCollection {
    /// The organisms, in their order.
    pub closed spec fn view(&self) -> Seq<Biot> {
        self.biots@
    }

    /// The size of the world, in thousandths.
    pub closed spec fn world(&self) -> (i64, i64) {
        (self.width, self.height)
    }

    /// The world has a size, and every organism is well formed and inside it.
    pub open spec fn wf(&self) -> bool {
        &&& 0 < self.world().0 <= MAX_COORD
        &&& 0 < self.world().1 <= MAX_COORD
        &&& forall|k: int|
            0 <= k < self@.len() ==> (#[trigger] self@[k]).wf() && self@[k].inside(
                self.world().0,
                self.world().1,
            )
    }

    /// A population of the given organisms, if each of them is well formed and
    /// inside a world of the given size.
    pub fn from_biots(biots: Vec<Biot>, width: i64, height: i64) -> (s: Option<BiotCollection>)
        ensures
            s.is_some() == (0 < width <= MAX_COORD && 0 < height <= MAX_COORD && forall|k: int|
                0 <= k < biots@.len() ==> (#[trigger] biots@[k]).wf() && biots@[k].inside(
                    width,
                    height,
                )),
            s matches Some(c) ==> c.wf() && c@ == biots@ && c.world() == (width, height),
    {
        if !(0 < width && width <= MAX_COORD && 0 < height && height <= MAX_COORD) {
            return None;
        }
        let mut k: usize = 0;
        while k < biots.len()
            invariant
                k <= biots@.len(),
                forall|j: int|
                    0 <= j < k ==> (#[trigger] biots@[j]).wf() && biots@[j].inside(width, height),
            decreases biots@.len() - k,
        {
            if !biots[k].is_valid(width, height) {
                return None;
            }
            k = k + 1;
        }
        Some(BiotCollection { biots, width, height })
    }

    /// Create `n` random organisms in a world of the given size.
    pub fn new(n: usize, width: i64, height: i64) -> (s: BiotCollection)
        requires
            0 < width <= MAX_COORD,
            0 < height <= MAX_COORD,
        ensures
            s.wf(),
            s.world() == (width, height),
            s@.len() == n,
            forall|k: int|
                0 <= k < n ==> (#[trigger] s@[k]).age == 0 && s@[k].life == s@[k].spec_base_life()
                    && s@[k].speed == (0i64, 0i64),
    {
        let mut biots: Vec<Biot> = Vec::new();
        let mut k: usize = 0;
        while k < n
            invariant
                k <= n,
                biots@.len() == k,
                0 < width <= MAX_COORD,
                0 < height <= MAX_COORD,
                forall|j: int|
                    0 <= j < k ==> (#[trigger] biots@[j]).wf() && biots@[j].inside(width, height)
                        && biots@[j].age == 0 && biots@[j].life == biots@[j].spec_base_life()
                        && biots@[j].speed == (0i64, 0i64),
            decreases n - k,
        {
            biots.push(Biot::random_biot(width, height));
            k = k + 1;
        }
        BiotCollection { biots, width, height }
    }

    /// The number of organisms currently in the collection.
    pub fn len(&self) -> (n: usize)
        ensures
            n == self@.len(),
    {
        self.biots.len()
    }

    /// Organism `k`, for display.
    pub fn get(&self, k: usize) -> (b: Option<Biot>)
        ensures
            b == if k < self@.len() {
                Some(self@[k as int])
            } else {
                None
            },
    {
        if k < self.biots.len() {
            Some(self.biots[k])
        } else {
            None
        }
    }

    /// The places of the organisms, in their order.
    pub fn positions(&self) -> (points: Vec<(i64, i64)>)
        ensures
            points@ == places(self@),
    {
        let mut points: Vec<(i64, i64)> = Vec::new();
        let mut k: usize = 0;
        while k < self.biots.len()
            invariant
                k <= self.biots@.len(),
                points@.len() == k,
                forall|j: int| 0 <= j < k ==> #[trigger] points@[j] == self.biots@[j].pos,
            decreases self.biots@.len() - k,
        {
            points.push(self.biots[k].pos);
            k = k + 1;
        }
        proof {
            assert(points@ =~= places(self@));
        }
        points
    }

    /// Compute one step of the simulation: the index is built over the places
    /// before the tick; every organism in turn picks its feeding direction from
    /// it and takes its own step; the meetings of all pairs within the combat
    /// radius are resolved, each pair once; the dead are removed and the
    /// offspring of this tick join the end of the population.
    pub fn step(&mut self)
        requires
            old(self).wf(),
        ensures
            final(self).wf(),
            final(self).world() == old(self).world(),
            old(self)@.len() == 0 ==> final(self)@.len() == 0,
            is_tick(old(self)@, final(self)@, old(self).world().0, old(self).world().1),
            exists|kept: int|
                0 <= kept <= old(self)@.len() && kept <= final(self)@.len() <= kept + old(self)@.len()
                    && #[trigger] is_generation(final(self)@, kept),
    {
        let n = self.biots.len();
        let width = self.width;
        let height = self.height;
        let points = self.positions();
        let index = SpatialIndex::build(points);
        let ghost before = self.biots@;
        let ghost mut children: Seq<Option<Biot>> = Seq::empty();
        let mut born: Vec<Biot> = Vec::new();
        let mut k: usize = 0;
        while k < n
            invariant
                k <= n,
                n == self.biots@.len(),
                n == before.len(),
                index@ == places(before),
                children.len() == k,
                born@ == present(children),
                forall|j: int|
                    0 <= j < n ==> (#[trigger] self.biots@[j]).attack == before[j].attack
                        && self.biots@[j].defense == before[j].defense,
                forall|j: int| k <= j < n ==> #[trigger] self.biots@[j] == before[j],
                forall|j: int|
                    0 <= j < k ==> is_stepped(
                        before,
                        index@,
                        j,
                        #[trigger] self.biots@[j],
                        children[j],
                        width,
                        height,
                    ),
                index.wf(),
                index@.len() == n,
                width == self.width,
                height == self.height,
                0 < width <= MAX_COORD,
                0 < height <= MAX_COORD,
                born@.len() <= k,
                forall|j: int|
                    0 <= j < n ==> (#[trigger] self.biots@[j]).wf() && self.biots@[j].inside(
                        width,
                        height,
                    ),
                forall|j: int|
                    0 <= j < born@.len() ==> (#[trigger] born@[j]).wf() && born@[j].inside(
                        width,
                        height,
                    ) && born@[j].age == 0 && born@[j].life == born@[j].spec_base_life(),
            decreases n - k,
        {
            let ghost now = self.biots@;
            let feed_dir = feed_direction(&self.biots, &index, k);
            let mut me = self.biots[k];
            let offspring = me.step(&index, feed_dir, width, height);
            self.biots.set(k, me);
            if let Some(child) = offspring {
                born.push(child);
            }
            proof {
                let seen = choose|seen: Seq<(usize, i64)>| #[trigger]
                    is_distance_ordering(index@, now[k as int].pos, seen) && is_feed_direction(
                        now,
                        index@,
                        k as int,
                        seen,
                        feed_dir,
                    );
                lemma_target_unchanged(now, before, k as int, seen, 0);
                assert(is_feed_direction(before, index@, k as int, seen, feed_dir));
                let near = choose|near: Seq<(usize, i64)>| #[trigger]
                    is_distance_ordering(index@, before[k as int].pos, near) && is_step(
                        before[k as int],
                        me,
                        offspring,
                        spec_crowding(near),
                        feed_dir,
                        width,
                        height,
                    );
                assert(is_stepped(before, index@, k as int, me, offspring, width, height));
                let ghost grown = children.push(offspring);
                assert(grown.drop_last() =~= children);
                children = grown;
            }
            k = k + 1;
        }
        let ghost stepped = self.biots@;
        let pairs = index.pairs_within(COMBAT_RADIUS_2);
        resolve_combat(&mut self.biots, &pairs);
        let ghost fought = self.biots@;
        prune(&mut self.biots);
        let ghost kept = self.biots@.len() as int;
        let ghost all = self.biots@ + born@;
        proof {
            lemma_survivors(fought);
            assert forall|j: int| 0 <= j < all.len() implies (#[trigger] all[j]).wf() && all[j].inside(
                width,
                height,
            ) by {
                if j < kept {
                    let w = choose|w: int| 0 <= w < fought.len() && fought[w] == self.biots@[j];
                    assert(fought[w].wf());
                } else {
                    assert(all[j] == born@[j - kept]);
                }
            }
            assert(is_generation(all, kept)) by {
                assert forall|j: int| 0 <= j < all.len() implies if j < kept {
                    !(#[trigger] all[j]).spec_dead()
                } else {
                    all[j].age == 0 && all[j].life == all[j].spec_base_life()
                } by {
                    if j < kept {
                        assert(all[j] == self.biots@[j]);
                    } else {
                        assert(all[j] == born@[j - kept]);
                    }
                }
            }
        }
        self.biots.append(&mut born);
        proof {
            assert(self.biots@ =~= all);
            assert(all == survivors(after_combats(stepped, pairs@)) + present(children));
            assert(is_tick_through(before, all, stepped, children, pairs@, width, height));
            assert(is_generation(self@, kept));
        }
    }
}

/// A population at the end of a tick: its first `kept` organisms have survived
/// the tick, the others are newborn with their base life.
pub open spec fn is_generation(biots: Seq<Biot>, kept: int) -> bool {
    forall|j: int|
        0 <= j < biots.len() ==> if j < kept {
            !(#[trigger] biots[j]).spec_dead()
        } else {
            biots[j].age == 0 && biots[j].life == biots[j].spec_base_life()
        }
}

} // verus!
