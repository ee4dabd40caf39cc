//! Laws of the simulation that relate several of its rules.

use vstd::prelude::*;
use crate::biot::{dragged, spec_stronger, Biot};
use crate::biot_collection::{
    after_combats, is_tick, is_tick_through, places, present, survivors,
};
use crate::genome::{lemma_occurrences_bound, occurrences, traits_of};
use crate::spatial::is_pairing_within;

verus! {

/// The traits are a function of the genome alone: equal genomes have equal
/// traits. No trait is negative, and none exceeds what thirteen loci can
/// encode.
pub proof fn law_traits_determined(first: [char; 13], second: [char; 13])
    requires
        first@ == second@,
    ensures
        traits_of(first@) == traits_of(second@),
        0 <= traits_of(first@).attack == occurrences(first@, 'a') <= 13,
        0 <= traits_of(first@).defense == occurrences(first@, 'd') <= 13,
        0 <= traits_of(first@).photosynthesis == occurrences(first@, 'p') <= 13,
        0 <= traits_of(first@).motion == occurrences(first@, 'm') <= 13,
        0 <= traits_of(first@).intelligence == 10 * occurrences(first@, 'i') <= 130,
{
    lemma_occurrences_bound(first@, 'a');
    lemma_occurrences_bound(first@, 'd');
    lemma_occurrences_bound(first@, 'p');
    lemma_occurrences_bound(first@, 'm');
    lemma_occurrences_bound(first@, 'i');
}

/// Base life is eight times the weight, and the weight is the sum of attack,
/// defense, photosynthesis and motion.
pub proof fn law_base_life(b: Biot)
    ensures
        b.spec_weight() == b.attack + b.defense + b.photosynthesis + b.motion,
        b.spec_base_life() == 8000 * b.spec_weight(),
{
}

/// An organism without any bodily trait never reproduces, whatever its life and
/// its surroundings, and never accelerates of its own accord: after a tick its
/// velocity is the dragged one.
pub proof fn law_weightless_is_inert(
    b: Biot,
    crowd: Option<i64>,
    feed_dir: Option<(i64, i64)>,
    speed: (i64, i64),
)
    requires
        b.spec_weight() == 0,
    ensures
        !b.spec_reproduces(crowd),
        b.may_steer_to(feed_dir, speed) ==> speed == dragged(b.speed),
{
}

/// Of two organisms at most one is stronger than the other.
pub proof fn law_stronger_is_asymmetric(a: Biot, b: Biot)
    ensures
        !(spec_stronger(a, b) && spec_stronger(b, a)),
{
}

/// No organism is stronger than itself.
pub proof fn law_stronger_is_irreflexive(a: Biot)
    ensures
        !spec_stronger(a, a),
{
}

/// In the listing of the pairs that meet in a tick no unordered pair occurs
/// twice: two different entries never name the same two organisms, in either
/// order.
pub proof fn law_pairs_meet_once(
    points: Seq<(i64, i64)>,
    max_d2: int,
    pairs: Seq<(usize, usize)>,
    s: int,
    t: int,
)
    requires
        is_pairing_within(points, max_d2, pairs),
        0 <= s < pairs.len(),
        0 <= t < pairs.len(),
        s != t,
    ensures
        pairs[s] != pairs[t],
        !(pairs[s].0 == pairs[t].1 && pairs[s].1 == pairs[t].0),
{
    if s < t {
        assert(pairs[s] != pairs[t]);
    } else {
        assert(pairs[t] != pairs[s]);
    }
    assert(pairs[s].0 < pairs[s].1);
    assert(pairs[t].0 < pairs[t].1);
}

/// A tick of the empty population leaves it empty.
pub proof fn law_empty_tick_is_empty(after: Seq<Biot>, width: i64, height: i64)
    requires
        is_tick(Seq::empty(), after, width, height),
    ensures
        after.len() == 0,
{
    let before = Seq::<Biot>::empty();
    let (stepped, children, pairs) = choose|
        stepped: Seq<Biot>,
        children: Seq<Option<Biot>>,
        pairs: Seq<(usize, usize)>,
    | #[trigger] is_tick_through(before, after, stepped, children, pairs, width, height);
    if pairs.len() > 0 {
        assert(pairs[0].1 < places(before).len());
    }
    assert(after_combats(stepped, pairs).len() == 0);
    assert(survivors(after_combats(stepped, pairs)).len() == 0);
    assert(present(children).len() == 0);
}

/// Wraparound puts every coordinate, also a negative one, into the world.
pub proof fn law_wrapped_inside(b: Biot, width: i64, height: i64)
    requires
        0 < width,
        0 < height,
    ensures
        b.moved(width, height).inside(width, height),
{
    let x = b.pos.0 + b.speed.0;
    let y = b.pos.1 + b.speed.1;
    assert(0 <= x % (width as int) < width) by (nonlinear_arith)
        requires
            width > 0,
    ;
    assert(0 <= y % (height as int) < height) by (nonlinear_arith)
        requires
            height > 0,
    ;
}

} // verus!
