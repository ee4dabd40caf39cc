//! Genomes and the traits derived from them.

use vstd::prelude::*;
use crate::rng::random_below;

verus! {

/// Number of loci in a genome.
pub const GENOME_LEN: usize = 13;

/// Number of symbols in the alphabet.
pub const ALPHABET_LEN: u32 = 8;

/// The alphabet: `a` attack, `d` defense, `p` photosynthesis, `m` motion,
/// `i` intelligence, and three times `n`, which encodes nothing.
pub open spec fn alphabet() -> Seq<char> {
    seq!['a', 'd', 'p', 'm', 'n', 'n', 'n', 'i']
}

/// How often `symbol` occurs in `genes`.
pub open spec fn occurrences(genes: Seq<char>, symbol: char) -> nat
    decreases genes.len(),
{
    if genes.len() == 0 {
        0
    } else {
        occurrences(genes.drop_last(), symbol) + if genes.last() == symbol {
            1nat
        } else {
            0nat
        }
    }
}

/// A count never exceeds the length of the sequence.
pub proof fn lemma_occurrences_bound(genes: Seq<char>, symbol: char)
    ensures
        occurrences(genes, symbol) <= genes.len(),
    decreases genes.len(),
{
    if genes.len() > 0 {
        lemma_occurrences_bound(genes.drop_last(), symbol);
    }
}

/// Counts of two different symbols never add up to more than the length.
pub proof fn lemma_occurrences_disjoint(genes: Seq<char>, a: char, d: char, p: char, m: char)
    requires
        a != d && a != p && a != m && d != p && d != m && p != m,
    ensures
        occurrences(genes, a) + occurrences(genes, d) + occurrences(genes, p) + occurrences(
            genes,
            m,
        ) <= genes.len(),
    decreases genes.len(),
{
    if genes.len() > 0 {
        lemma_occurrences_disjoint(genes.drop_last(), a, d, p, m);
    }
}

/// The numeric traits of an organism. `attack`, `defense`, `photosynthesis` and
/// `motion` are in tenths; `intelligence` is in whole units.
#[derive(Clone, Copy, Debug, PartialEq, Eq, Structural)]
pub struct Traits {
    pub attack: u32,
    pub defense: u32,
    pub photosynthesis: u32,
    pub motion: u32,
    pub intelligence: u32,
}

/// The traits that a genome encodes: each of the four bodily traits is one tenth
/// per occurrence of its symbol, intelligence is ten per occurrence.
pub open spec fn traits_of(genes: Seq<char>) -> Traits {
    Traits {
        attack: occurrences(genes, 'a') as u32,
        defense: occurrences(genes, 'd') as u32,
        photosynthesis: occurrences(genes, 'p') as u32,
        motion: occurrences(genes, 'm') as u32,
        intelligence: (10 * occurrences(genes, 'i')) as u32,
    }
}

/// Weight in tenths: the four bodily traits added up, intelligence left out.
pub open spec fn spec_weight(t: Traits) -> int {
    t.attack + t.defense + t.photosynthesis + t.motion
}

/// The symbol at position `k` of the alphabet.
pub fn letter(k: u32) -> (c: char)
    requires
        k < ALPHABET_LEN,
    ensures
        c == alphabet()[k as int],
{
    if k == 0 {
        'a'
    } else if k == 1 {
        'd'
    } else if k == 2 {
        'p'
    } else if k == 3 {
        'm'
    } else if k == 7 {
        'i'
    } else {
        'n'
    }
}

/// Counts the occurrences of `symbol` in a genome.
pub fn count_symbol(genome: &[char; 13], symbol: char) -> (n: u32)
    ensures
        n == occurrences(genome@, symbol),
        n <= 13,
{
    let mut n: u32 = 0;
    let mut k: usize = 0;
    while k < 13
        invariant
            k <= 13,
            n == occurrences(genome@.take(k as int), symbol),
            n <= k,
        decreases 13 - k,
    {
        proof {
            assert(genome@.take(k + 1).drop_last() =~= genome@.take(k as int));
        }
        if genome[k] == symbol {
            n = n + 1;
        }
        k = k + 1;
    }
    proof {
        assert(genome@.take(13) =~= genome@);
    }
    n
}

/// Derives the traits of a genome.
pub fn derive_traits(genome: &[char; 13]) -> (t: Traits)
    ensures
        t == traits_of(genome@),
        t.attack + t.defense + t.photosynthesis + t.motion <= 13,
        t.intelligence <= 130,
{
    proof {
        lemma_occurrences_disjoint(genome@, 'a', 'd', 'p', 'm');
    }
    Traits {
        attack: count_symbol(genome, 'a'),
        defense: count_symbol(genome, 'd'),
        photosynthesis: count_symbol(genome, 'p'),
        motion: count_symbol(genome, 'm'),
        intelligence: 10 * count_symbol(genome, 'i'),
    }
}

/// The genome `genes` with the symbol at `locus` replaced by symbol `k` of the
/// alphabet.
pub open spec fn point_mutation(genes: Seq<char>, locus: int, k: int) -> Seq<char> {
    genes.update(locus, alphabet()[k])
}

/// `after` differs from `before` by one point mutation: some locus received some
/// symbol of the alphabet (possibly the one it held).
pub open spec fn is_point_mutation(before: Seq<char>, after: Seq<char>) -> bool {
    exists|locus: int, k: int|
        0 <= locus < 13 && 0 <= k < 8 && after == #[trigger] point_mutation(before, locus, k)
}

/// Replaces the symbol at `locus` by `symbol`.
pub fn mutate_at(genome: &mut [char; 13], locus: usize, symbol: char)
    requires
        locus < 13,
    ensures
        final(genome)@ == old(genome)@.update(locus as int, symbol),
{
    genome[locus] = symbol;
}

/// One point mutation: a random locus receives a random symbol of the alphabet.
pub fn mutate(genome: &mut [char; 13])
    ensures
        is_point_mutation(old(genome)@, final(genome)@),
{
    let locus = random_below(13);
    let k = random_below(ALPHABET_LEN);
    let symbol = letter(k);
    mutate_at(genome, locus as usize, symbol);
    proof {
        assert(genome@ == point_mutation(old(genome)@, locus as int, k as int));
    }
}

} // verus!
