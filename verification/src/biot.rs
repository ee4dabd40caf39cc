//! A single organism and the rules that govern it during one tick.

use vstd::prelude::*;
use crate::fixed::{
    clamp, clamp_to, dist2, distance_squared, div_toward_zero, is_unit_toward, modulus, normalize,
    trunc_div, MAX_COORD, UNIT,
};
use crate::genome::{
    derive_traits, is_point_mutation, letter, mutate, spec_weight, traits_of, Traits,
    ALPHABET_LEN,
};
use crate::rng::random_below;
use crate::spatial::{is_distance_ordering, SpatialIndex};

verus! {

/// Age at which an organism dies.
pub const MAX_AGE: u32 = 10_000;

/// Largest magnitude of `life`, in ten-thousandths of a life point.
pub const MAX_LIFE: i64 = 1_000_000_000_000_000;

/// Largest magnitude of a velocity component, in thousandths per tick.
pub const MAX_SPEED: i64 = 1_000_000;

/// Most point mutations that one offspring can receive.
pub const MAX_MUTATIONS: u32 = 64;

/// Squared distance, in thousandths, beyond which the sixth-nearest organism
/// does not count as crowding: 200 square units.
pub const CROWDING_DISTANCE_2: i64 = 200_000_000;

/// A single organism. `life` is in ten-thousandths of a life point, `pos` and
/// `speed` in thousandths of a world unit; the bodily traits are in tenths.
#[derive(Clone, Copy, Debug)]
pub struct Biot {
    pub life: i64,
    pub pos: (i64, i64),
    pub speed: (i64, i64),
    pub age: u32,
    pub genome: [char; 13],
    pub attack: u32,
    pub defense: u32,
    pub photosynthesis: u32,
    pub motion: u32,
    pub intelligence: u32,
}

/// `a` dominates `b` in combat: its attack exceeds `b`'s attack plus nine tenths
/// of `b`'s defense.
pub open spec fn spec_stronger(a: Biot, b: Biot) -> bool {
    10 * a.attack > 10 * b.attack + 9 * b.defense
}

/// The two organisms touch: their distance is below ten times the sum of their
/// weights.
pub open spec fn in_reach(a: Biot, b: Biot) -> bool {
    let reach = 1000 * (a.spec_weight() + b.spec_weight());
    dist2(a.pos, b.pos) < reach * reach
}

/// `winner` after it has absorbed four fifths of `loser`'s life.
pub open spec fn fed(winner: Biot, loser: Biot) -> Biot {
    Biot { life: clamp(winner.life + trunc_div(4 * loser.life, 5), MAX_LIFE as int) as i64, ..winner }
}

/// `loser` after a lost fight: no life is left.
pub open spec fn slain(loser: Biot) -> Biot {
    Biot { life: 0, ..loser }
}

/// The outcome of a meeting of `a` and `b`: where they touch and one dominates
/// the other, the winner feeds on the loser; otherwise both are unchanged.
pub open spec fn combat(a: Biot, b: Biot) -> (Biot, Biot) {
    if in_reach(a, b) && spec_stronger(a, b) {
        (fed(a, b), slain(b))
    } else if in_reach(a, b) && spec_stronger(b, a) {
        (slain(a), fed(b, a))
    } else {
        (a, b)
    }
}

/// A direction whose components are at most one unit.
pub open spec fn unit_bounded(dir: (i64, i64)) -> bool {
    -UNIT <= dir.0 <= UNIT && -UNIT <= dir.1 <= UNIT
}

/// A direction that a random move can take: the unit vector along a vector
/// whose components are each drawn from `[-500, 500)`.
pub open spec fn is_random_direction(dir: (i64, i64)) -> bool {
    &&& unit_bounded(dir)
    &&& exists|dx: int, dy: int|
        -500 <= dx < 500 && -500 <= dy < 500 && #[trigger] is_unit_toward(dx, dy, dir)
}

/// A velocity component after an impulse along `dir` of `num / den` units.
pub open spec fn pushed(v: int, dir: int, num: int, den: int) -> int {
    clamp(v + trunc_div(dir * num, den), MAX_SPEED as int)
}

/// A velocity after an impulse along `dir` of `num / den` units.
pub open spec fn accelerated(speed: (i64, i64), dir: (i64, i64), num: int, den: int) -> (i64, i64) {
    (
        pushed(speed.0 as int, dir.0 as int, num, den) as i64,
        pushed(speed.1 as int, dir.1 as int, num, den) as i64,
    )
}

/// A velocity after one tick of drag: nine tenths of it, rounded toward zero.
pub open spec fn dragged(speed: (i64, i64)) -> (i64, i64) {
    (trunc_div(9 * speed.0, 10) as i64, trunc_div(9 * speed.1, 10) as i64)
}

/// `after` comes from `before` by `steps` point mutations.
pub open spec fn is_descendant(before: Seq<char>, after: Seq<char>, steps: nat) -> bool
    decreases steps,
{
    if steps == 0 {
        after == before
    } else {
        exists|mid: Seq<char>|
            is_descendant(before, mid, (steps - 1) as nat) && #[trigger] is_point_mutation(
                mid,
                after,
            )
    }
}

/// The distance to the sixth entry of a listing by distance, if there is one.
pub open spec fn spec_crowding(order: Seq<(usize, i64)>) -> Option<i64> {
    if order.len() > 5 {
        Some(order[5].1)
    } else {
        None
    }
}

/// The squared distance to the sixth-nearest organism of a listing by distance,
/// the organism that asks counted among them.
pub fn crowding_distance(order: &Vec<(usize, i64)>) -> (d: Option<i64>)
    ensures
        d == spec_crowding(order@),
{
    if order.len() > 5 {
        Some(order[5].1)
    } else {
        None
    }
}

/// An age one tick later.
pub open spec fn aged(age: u32) -> u32 {
    if age < u32::MAX {
        (age + 1) as u32
    } else {
        age
    }
}

/// `child` is a fresh offspring of `parent`: newborn at the parent's place,
/// with the base life of its own genome, which comes from the parent's by a
/// bounded number of point mutations, and with the parent's velocity plus an
/// impulse of one and a half units in a random direction.
pub open spec fn is_offspring(parent: Biot, child: Biot) -> bool {
    &&& child.wf()
    &&& child.age == 0
    &&& child.pos == parent.pos
    &&& child.life == child.spec_base_life()
    &&& exists|steps: nat|
        steps <= MAX_MUTATIONS && #[trigger] is_descendant(parent.genome@, child.genome@, steps)
    &&& exists|dir: (i64, i64)|
        is_random_direction(dir) && child.speed == #[trigger] accelerated(parent.speed, dir, 3, 2)
}

/// `after` and `offspring` are a possible outcome of one tick of `before`,
/// given the squared distance `crowd` to its sixth-nearest neighbour and the
/// feeding direction. Reproduction, movement, wraparound, drag, energy balance
/// and aging are determined; the offspring's mutations and the voluntary
/// impulse are left to chance within their rules.
pub open spec fn is_step(
    before: Biot,
    after: Biot,
    offspring: Option<Biot>,
    crowd: Option<i64>,
    feed_dir: Option<(i64, i64)>,
    width: i64,
    height: i64,
) -> bool {
    let parent = before.after_birth(crowd);
    &&& after.wf()
    &&& after.inside(width, height)
    &&& offspring.is_some() == before.spec_reproduces(crowd)
    &&& after == (Biot { speed: after.speed, age: aged(before.age), ..parent.moved(width, height) })
    &&& before.may_steer_to(feed_dir, after.speed)
    &&& match offspring {
        Some(child) => is_offspring(before, child),
        None => true,
    }
}

impl Biot {
    /// The organism after the reproduction step: where it reproduces, it is left
    /// with three times its base life.
    pub open spec fn after_birth(&self, crowd: Option<i64>) -> Biot {
        if self.spec_reproduces(crowd) {
            Biot { life: (3 * self.spec_base_life()) as i64, ..*self }
        } else {
            *self
        }
    }

    /// Whether `speed` can be the velocity after this tick: the dragged velocity
    /// alone, or, for an organism that has motion, the dragged velocity plus an
    /// impulse of `7 * motion / weight` units, along the feeding direction where
    /// the organism has intelligence and a direction, in a random direction
    /// otherwise.
    pub open spec fn may_steer_to(&self, feed_dir: Option<(i64, i64)>, speed: (i64, i64)) -> bool {
        let coasting = dragged(self.speed);
        ||| speed == coasting
        ||| self.motion > 0 && match feed_dir {
            Some(d) if self.intelligence > 0 => speed == accelerated(
                coasting,
                d,
                7 * self.motion,
                self.spec_weight(),
            ),
            _ => exists|dir: (i64, i64)|
                is_random_direction(dir) && speed == #[trigger] accelerated(
                    coasting,
                    dir,
                    7 * self.motion,
                    self.spec_weight(),
                ),
        }
    }

    /// The traits as one value.
    pub open spec fn traits(&self) -> Traits {
        Traits {
            attack: self.attack,
            defense: self.defense,
            photosynthesis: self.photosynthesis,
            motion: self.motion,
            intelligence: self.intelligence,
        }
    }

    /// The traits are those that the genome encodes, and life, position and
    /// velocity are within their limits.
    pub open spec fn wf(&self) -> bool {
        &&& self.traits() == traits_of(self.genome@)
        &&& spec_weight(self.traits()) <= 13
        &&& self.intelligence <= 130
        &&& -MAX_LIFE <= self.life <= MAX_LIFE
        &&& -MAX_COORD <= self.pos.0 <= MAX_COORD
        &&& -MAX_COORD <= self.pos.1 <= MAX_COORD
        &&& -MAX_SPEED <= self.speed.0 <= MAX_SPEED
        &&& -MAX_SPEED <= self.speed.1 <= MAX_SPEED
    }

    /// The position lies in a world of the given size.
    pub open spec fn inside(&self, width: i64, height: i64) -> bool {
        0 <= self.pos.0 < width && 0 <= self.pos.1 < height
    }

    /// Weight in tenths: attack, defense, photosynthesis and motion added up.
    pub open spec fn spec_weight(&self) -> int {
        self.attack + self.defense + self.photosynthesis + self.motion
    }

    /// Eight times the weight, in ten-thousandths of a life point.
    pub open spec fn spec_base_life(&self) -> int {
        8000 * self.spec_weight()
    }

    /// The cost of the traits per tick before scaling, in ten-thousandths:
    /// `0.2 * (4.5 attack + 2.3 defense + 2.5 motion + 0.1 intelligence)`.
    pub open spec fn spec_metabolism(&self) -> int {
        900 * self.attack + 460 * self.defense + 500 * self.motion + 200 * self.intelligence
    }

    /// What a tick adds to life: four tenths of photosynthesis less metabolism.
    pub open spec fn spec_energy_gain(&self) -> int {
        400 * self.photosynthesis - 360 * self.attack - 184 * self.defense - 200 * self.motion
            - 80 * self.intelligence
    }

    /// Whether the organism reproduces, given the squared distance to the
    /// sixth-nearest organism: it has weight, at least four times its base
    /// life, and that neighbour is missing or farther than the crowding
    /// distance.
    pub open spec fn spec_reproduces(&self, crowd: Option<i64>) -> bool {
        &&& self.spec_weight() > 0
        &&& self.life >= 4 * self.spec_base_life()
        &&& match crowd {
            Some(d2) => d2 > CROWDING_DISTANCE_2,
            None => true,
        }
    }

    /// Whether the organism is removed at the end of the tick.
    pub open spec fn spec_dead(&self) -> bool {
        self.life <= 0 || self.age >= MAX_AGE
    }

    /// The organism after movement, wraparound, drag and energy balance, with
    /// `life` as it stood after the reproduction step.
    pub open spec fn moved(&self, width: i64, height: i64) -> Biot {
        Biot {
            pos: (
                ((self.pos.0 + self.speed.0) % (width as int)) as i64,
                ((self.pos.1 + self.speed.1) % (height as int)) as i64,
            ),
            speed: dragged(self.speed),
            life: clamp(self.life + self.spec_energy_gain(), MAX_LIFE as int) as i64,
            ..*self
        }
    }

    /// An organism with the given genome at the given place: at rest, newborn,
    /// with its base life.
    pub fn with_genome(genome: [char; 13], pos: (i64, i64)) -> (b: Biot)
        requires
            -MAX_COORD <= pos.0 <= MAX_COORD,
            -MAX_COORD <= pos.1 <= MAX_COORD,
        ensures
            b.wf(),
            b.genome == genome,
            b.pos == pos,
            b.speed == (0i64, 0i64),
            b.age == 0,
            b.life == b.spec_base_life(),
    {
        let t = derive_traits(&genome);
        let mut b = Biot {
            life: 0,
            pos,
            speed: (0, 0),
            age: 0,
            genome,
            attack: t.attack,
            defense: t.defense,
            photosynthesis: t.photosynthesis,
            motion: t.motion,
            intelligence: t.intelligence,
        };
        b.life = b.base_life();
        b
    }

    /// Whether the organism is well formed and inside a world of the given size.
    pub fn is_valid(&self, width: i64, height: i64) -> (ok: bool)
        ensures
            ok == (self.wf() && self.inside(width, height)),
    {
        let t = derive_traits(&self.genome);
        t.attack == self.attack && t.defense == self.defense && t.photosynthesis
            == self.photosynthesis && t.motion == self.motion && t.intelligence
            == self.intelligence && -MAX_LIFE <= self.life && self.life <= MAX_LIFE && -MAX_COORD
            <= self.pos.0 && self.pos.0 <= MAX_COORD && -MAX_COORD <= self.pos.1 && self.pos.1
            <= MAX_COORD && -MAX_SPEED <= self.speed.0 && self.speed.0 <= MAX_SPEED && -MAX_SPEED
            <= self.speed.1 && self.speed.1 <= MAX_SPEED && 0 <= self.pos.0 && self.pos.0 < width
            && 0 <= self.pos.1 && self.pos.1 < height
    }

    /// An organism with a random genome at a random place of the world.
    pub fn random_biot(width: i64, height: i64) -> (b: Biot)
        requires
            0 < width <= MAX_COORD,
            0 < height <= MAX_COORD,
        ensures
            b.wf(),
            b.inside(width, height),
            b.speed == (0i64, 0i64),
            b.age == 0,
            b.life == b.spec_base_life(),
            forall|k: int| 0 <= k < 13 ==> crate::genome::alphabet().contains(#[trigger] b.genome@[k]),
    {
        let mut genome: [char; 13] = ['n';13];
        let mut k: usize = 0;
        while k < 13
            invariant
                k <= 13,
                forall|j: int|
                    0 <= j < 13 ==> crate::genome::alphabet().contains(#[trigger] genome@[j]),
            decreases 13 - k,
        {
            let pick = random_below(ALPHABET_LEN);
            genome[k] = letter(pick);
            k = k + 1;
        }
        let x = random_below(width as u32);
        let y = random_below(height as u32);
        Biot::with_genome(genome, (x as i64, y as i64))
    }

    /// Total weight, in tenths.
    pub fn weight(&self) -> (w: u32)
        requires
            self.wf(),
        ensures
            w == self.attack + self.defense + self.photosynthesis + self.motion,
            w == self.spec_weight(),
    {
        self.attack + self.defense + self.photosynthesis + self.motion
    }

    /// The life an organism starts with, which also sets when it reproduces.
    pub fn base_life(&self) -> (l: i64)
        requires
            spec_weight(self.traits()) <= 13,
        ensures
            l == self.spec_base_life(),
            l == 8000 * self.spec_weight(),
            0 <= l <= 104_000,
    {
        let w: u32 = self.attack + self.defense + self.photosynthesis + self.motion;
        8000 * (w as i64)
    }

    /// The metabolic cost of the traits.
    pub fn metabolism(&self) -> (m: i64)
        requires
            self.wf(),
        ensures
            m == self.spec_metabolism(),
    {
        900 * (self.attack as i64) + 460 * (self.defense as i64) + 500 * (self.motion as i64) + 200
            * (self.intelligence as i64)
    }

    /// What one tick adds to life: two fifths of photosynthesis less metabolism.
    pub fn energy_gain(&self) -> (g: i64)
        requires
            self.wf(),
        ensures
            g == self.spec_energy_gain(),
            5 * g == 2 * (1000 * self.photosynthesis - self.spec_metabolism()),
    {
        let m = self.metabolism();
        div_toward_zero(2 * (1000 * (self.photosynthesis as i64) - m), 5)
    }

    /// Whether the organism is to be removed.
    pub fn dead(&self) -> (d: bool)
        ensures
            d == self.spec_dead(),
            d == (self.life <= 0 || self.age >= 10_000),
    {
        self.life <= 0 || self.age >= MAX_AGE
    }

    /// Are we stronger than this other organism?
    pub fn stronger(&self, other: &Biot) -> (s: bool)
        requires
            self.wf(),
            other.wf(),
        ensures
            s == spec_stronger(*self, *other),
    {
        10 * self.attack > 10 * other.attack + 9 * other.defense
    }

    /// Recomputes the traits from the genome.
    pub fn set_from_genome(&mut self)
        ensures
            final(self).traits() == traits_of(old(self).genome@),
            spec_weight(final(self).traits()) <= 13,
            final(self).intelligence <= 130,
            final(self).genome == old(self).genome,
            final(self).life == old(self).life,
            final(self).pos == old(self).pos,
            final(self).speed == old(self).speed,
            final(self).age == old(self).age,
    {
        let t = derive_traits(&self.genome);
        self.attack = t.attack;
        self.defense = t.defense;
        self.photosynthesis = t.photosynthesis;
        self.motion = t.motion;
        self.intelligence = t.intelligence;
    }

    /// Mutates one random locus and recomputes the traits.
    pub fn mutate(&mut self)
        requires
            old(self).wf(),
        ensures
            final(self).wf(),
            is_point_mutation(old(self).genome@, final(self).genome@),
            final(self).life == old(self).life,
            final(self).pos == old(self).pos,
            final(self).speed == old(self).speed,
            final(self).age == old(self).age,
    {
        let mut genome = self.genome;
        mutate(&mut genome);
        self.genome = genome;
        self.set_from_genome();
    }

    /// Applies an impulse of `num / den` units along `dir`.
    pub fn accelerate(&mut self, dir: (i64, i64), num: i64, den: i64)
        requires
            old(self).wf(),
            unit_bounded(dir),
            0 <= num <= 1000,
            0 < den,
        ensures
            final(self).speed == accelerated(old(self).speed, dir, num as int, den as int),
            *final(self) == (Biot { speed: final(self).speed, ..*old(self) }),
            final(self).wf(),
    {
        assert(-1_000_000 <= dir.0 * num <= 1_000_000) by (nonlinear_arith)
            requires
                -1000 <= dir.0 <= 1000,
                0 <= num <= 1000,
        ;
        assert(-1_000_000 <= dir.1 * num <= 1_000_000) by (nonlinear_arith)
            requires
                -1000 <= dir.1 <= 1000,
                0 <= num <= 1000,
        ;
        let ix = div_toward_zero(dir.0 * num, den);
        let iy = div_toward_zero(dir.1 * num, den);
        self.speed = (clamp_to(self.speed.0 + ix, MAX_SPEED), clamp_to(self.speed.1 + iy, MAX_SPEED));
    }

    /// Applies an impulse of `num / den` units in a random direction.
    pub fn random_move(&mut self, num: i64, den: i64)
        requires
            old(self).wf(),
            0 <= num <= 1000,
            0 < den,
        ensures
            exists|dir: (i64, i64)|
                is_random_direction(dir) && final(self).speed == #[trigger] accelerated(
                    old(self).speed,
                    dir,
                    num as int,
                    den as int,
                ),
            *final(self) == (Biot { speed: final(self).speed, ..*old(self) }),
            final(self).wf(),
    {
        let rx = random_below(1000);
        let ry = random_below(1000);
        let dir = normalize(rx as i64 - 500, ry as i64 - 500);
        proof {
            assert(is_unit_toward(rx as int - 500, ry as int - 500, dir));
        }
        self.accelerate(dir, num, den);
    }

    /// Whether the organism reproduces this tick, given the squared distance
    /// to its sixth-nearest neighbour.
    pub fn reproduces(&self, crowd: Option<i64>) -> (r: bool)
        requires
            self.wf(),
        ensures
            r == self.spec_reproduces(crowd),
    {
        let open = match crowd {
            Some(d2) => d2 > CROWDING_DISTANCE_2,
            None => true,
        };
        self.weight() > 0 && self.life >= 4 * self.base_life() && open
    }

    /// Movement with wraparound, drag and energy balance.
    pub fn advance(&mut self, width: i64, height: i64)
        requires
            old(self).wf(),
            0 < width <= MAX_COORD,
            0 < height <= MAX_COORD,
        ensures
            *final(self) == old(self).moved(width, height),
            final(self).wf(),
            final(self).inside(width, height),
    {
        let x = modulus(self.pos.0 + self.speed.0, width);
        let y = modulus(self.pos.1 + self.speed.1, height);
        self.pos = (x, y);
        self.speed = (div_toward_zero(9 * self.speed.0, 10), div_toward_zero(9 * self.speed.1, 10));
        let gain = self.energy_gain();
        self.life = clamp_to(self.life + gain, MAX_LIFE);
    }

    /// Resolves the meeting of organisms `i` and `j`: where they touch and one
    /// is stronger, it gains four fifths of the other's life, and the other is
    /// left with none.
    pub fn interact(biots: &mut Vec<Biot>, i: usize, j: usize)
        requires
            i < old(biots)@.len(),
            j < old(biots)@.len(),
            old(biots)@[i as int].wf(),
            old(biots)@[j as int].wf(),
        ensures
            final(biots)@ == old(biots)@.update(
                i as int,
                combat(old(biots)@[i as int], old(biots)@[j as int]).0,
            ).update(j as int, combat(old(biots)@[i as int], old(biots)@[j as int]).1),
            final(biots)@[i as int].wf(),
            final(biots)@[j as int].wf(),
    {
        let mut a = biots[i];
        let mut b = biots[j];
        let d2 = distance_squared(a.pos, b.pos);
        let reach: i64 = 1000 * ((a.weight() + b.weight()) as i64);
        assert(0 <= reach * reach <= 26_000 * 26_000) by (nonlinear_arith)
            requires
                0 <= reach <= 26_000,
        ;
        if d2 < reach * reach {
            if a.stronger(&b) {
                a.life = clamp_to(a.life + div_toward_zero(4 * b.life, 5), MAX_LIFE);
                b.life = 0;
            } else if b.stronger(&a) {
                b.life = clamp_to(b.life + div_toward_zero(4 * a.life, 5), MAX_LIFE);
                a.life = 0;
            }
        }
        biots.set(i, a);
        biots.set(j, b);
    }
    /// One tick of the organism, given the squared distance to its sixth-nearest
    /// neighbour: reproduction, movement with wraparound, drag, energy balance,
    /// voluntary acceleration, aging. Returns the offspring, if there is one.
    pub fn step_with(
        &mut self,
        crowd: Option<i64>,
        feed_dir: Option<(i64, i64)>,
        width: i64,
        height: i64,
    ) -> (offspring: Option<Biot>)
        requires
            old(self).wf(),
            0 < width <= MAX_COORD,
            0 < height <= MAX_COORD,
            feed_dir matches Some(d) ==> unit_bounded(d),
        ensures
            is_step(*old(self), *final(self), offspring, crowd, feed_dir, width, height),
    {
        let mut offspring: Option<Biot> = None;
        if self.reproduces(crowd) {
            let mut child = *self;
            child.age = 0;
            let mut tries: u32 = 0;
            while tries < MAX_MUTATIONS
                invariant
                    tries <= MAX_MUTATIONS,
                    child.wf(),
                    child.age == 0,
                    child.pos == self.pos,
                    child.speed == self.speed,
                    is_descendant(self.genome@, child.genome@, tries as nat),
                decreases MAX_MUTATIONS - tries,
            {
                if random_below(5) != 0 {
                    break ;
                }
                child.mutate();
                tries = tries + 1;
            }
            child.life = child.base_life();
            child.random_move(3, 2);
            offspring = Some(child);
            self.life = 3 * self.base_life();
        }
        self.advance(width, height);
        if random_below(50) < self.motion {
            let num: i64 = 7 * (self.motion as i64);
            let den: i64 = self.weight() as i64;
            match feed_dir {
                Some(d) if self.intelligence > 0 => {
                    self.accelerate(d, num, den);
                },
                _ => {
                    self.random_move(num, den);
                },
            }
        }
        if self.age < u32::MAX {
            self.age = self.age + 1;
        }
        offspring
    }

    /// Compute the evolution of the organism for one simulation step: the
    /// sixth-nearest neighbour is looked up in the index, the organism itself
    /// counted, and the tick proceeds as in [`Biot::step_with`].
    pub fn step(
        &mut self,
        index: &SpatialIndex,
        feed_dir: Option<(i64, i64)>,
        width: i64,
        height: i64,
    ) -> (offspring: Option<Biot>)
        requires
            old(self).wf(),
            index.wf(),
            0 < width <= MAX_COORD,
            0 < height <= MAX_COORD,
            feed_dir matches Some(d) ==> unit_bounded(d),
        ensures
            exists|order: Seq<(usize, i64)>| #[trigger]
                is_distance_ordering(index@, old(self).pos, order) && is_step(
                    *old(self),
                    *final(self),
                    offspring,
                    spec_crowding(order),
                    feed_dir,
                    width,
                    height,
                ),
    {
        let order = index.neighbors(self.pos);
        let crowd = crowding_distance(&order);
        self.step_with(crowd, feed_dir, width, height)
    }
}

} // verus!
