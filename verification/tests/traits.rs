use biots::biot::Biot;
use biots::genome::{count_symbol, derive_traits, letter, mutate, mutate_at, Traits};

fn genome_of(symbols: &str) -> [char; 13] {
    let mut genome = ['n'; 13];
    for (k, c) in symbols.chars().enumerate() {
        genome[k] = c;
    }
    genome
}

#[test]
fn three_attack_symbols_give_three_tenths_of_attack() {
    let t = derive_traits(&genome_of("aaa"));
    assert_eq!(
        t,
        Traits { attack: 3, defense: 0, photosynthesis: 0, motion: 0, intelligence: 0 }
    );
}

#[test]
fn every_symbol_is_counted_for_its_own_trait() {
    let t = derive_traits(&genome_of("addpppmmmmi"));
    assert_eq!(
        t,
        Traits { attack: 1, defense: 2, photosynthesis: 3, motion: 4, intelligence: 10 }
    );
}

#[test]
fn intelligence_is_ten_per_symbol() {
    assert_eq!(derive_traits(&genome_of("ii")).intelligence, 20);
    assert_eq!(derive_traits(&['i'; 13]).intelligence, 130);
}

#[test]
fn empty_genome_has_no_traits() {
    let t = derive_traits(&['n'; 13]);
    assert_eq!(
        t,
        Traits { attack: 0, defense: 0, photosynthesis: 0, motion: 0, intelligence: 0 }
    );
}

#[test]
fn equal_genomes_have_equal_traits() {
    let first = genome_of("apdmiapdmi");
    let second = genome_of("apdmiapdmi");
    assert_eq!(derive_traits(&first), derive_traits(&second));
    assert_eq!(derive_traits(&first), derive_traits(&first));
}

#[test]
fn count_symbol_counts_occurrences() {
    let g = genome_of("aanana");
    assert_eq!(count_symbol(&g, 'a'), 4);
    assert_eq!(count_symbol(&g, 'n'), 9);
    assert_eq!(count_symbol(&g, 'i'), 0);
}

#[test]
fn letters_follow_the_alphabet() {
    let got: Vec<char> = (0..8).map(letter).collect();
    assert_eq!(got, vec!['a', 'd', 'p', 'm', 'n', 'n', 'n', 'i']);
}

#[test]
fn mutate_at_replaces_one_locus() {
    let mut g = genome_of("aaa");
    mutate_at(&mut g, 1, 'p');
    assert_eq!(g, genome_of("apa"));
    mutate_at(&mut g, 12, 'i');
    assert_eq!(g[12], 'i');
    assert_eq!(derive_traits(&g).intelligence, 10);
}

#[test]
fn mutate_changes_at_most_one_locus_to_a_letter() {
    for _ in 0..200 {
        let before = ['p'; 13];
        let mut after = before;
        mutate(&mut after);
        let changed: Vec<usize> = (0..13).filter(|&k| before[k] != after[k]).collect();
        assert!(changed.len() <= 1);
        for k in changed {
            assert!(matches!(after[k], 'a' | 'd' | 'm' | 'n' | 'i'));
        }
    }
}

#[test]
fn weight_is_the_sum_of_the_bodily_traits() {
    let b = Biot::with_genome(genome_of("addpppmmmmii"), (0, 0));
    assert_eq!(b.weight(), 10);
    assert_eq!(b.weight(), b.attack + b.defense + b.photosynthesis + b.motion);
}

#[test]
fn base_life_is_eight_times_weight() {
    let b = Biot::with_genome(genome_of("adpm"), (0, 0));
    assert_eq!(b.weight(), 4);
    assert_eq!(b.base_life(), 32_000);
    assert_eq!(b.life, 32_000);
    let none = Biot::with_genome(['n'; 13], (0, 0));
    assert_eq!(none.base_life(), 0);
}

#[test]
fn metabolism_and_energy_gain_follow_their_formulas() {
    let b = Biot::with_genome(genome_of("adpmi"), (0, 0));
    assert_eq!(b.metabolism(), 3_860);
    assert_eq!(b.energy_gain(), -1_144);
    let plant = Biot::with_genome(['p'; 13], (0, 0));
    assert_eq!(plant.metabolism(), 0);
    assert_eq!(plant.energy_gain(), 5_200);
}

#[test]
fn set_from_genome_recomputes_the_traits() {
    let mut b = Biot::with_genome(genome_of("aaa"), (7, 9));
    b.genome = genome_of("ddi");
    b.set_from_genome();
    assert_eq!((b.attack, b.defense, b.intelligence), (0, 2, 10));
    assert_eq!(b.pos, (7, 9));
    assert_eq!(b.life, 24_000);
}
