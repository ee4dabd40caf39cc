use biots::biot::Biot;
use biots::biot_collection::{
    choose_target, feed_direction, prune, resolve_combat, BiotCollection,
};
use biots::spatial::SpatialIndex;

fn genome_of(symbols: &str) -> [char; 13] {
    let mut genome = ['n'; 13];
    for (k, c) in symbols.chars().enumerate() {
        genome[k] = c;
    }
    genome
}

#[test]
fn stepping_an_empty_population_changes_nothing() {
    let mut biots = BiotCollection::new(0, 800_000, 600_000);
    assert_eq!(biots.len(), 0);
    for _ in 0..5 {
        biots.step();
        assert_eq!(biots.len(), 0);
    }
    let mut empty = BiotCollection::from_biots(Vec::new(), 1, 1).expect("valid");
    empty.step();
    assert_eq!(empty.len(), 0);
}

#[test]
fn new_creates_the_number_asked_for() {
    let biots = BiotCollection::new(25, 800_000, 600_000);
    assert_eq!(biots.len(), 25);
    assert_eq!(biots.positions().len(), 25);
    for k in 0..25 {
        let b = biots.get(k).expect("in range");
        assert!(b.is_valid(800_000, 600_000));
        assert_eq!(b.age, 0);
        assert_eq!(b.life, b.base_life());
        assert_eq!(biots.positions()[k], b.pos);
    }
    assert!(biots.get(25).is_none());
}

#[test]
fn from_biots_checks_every_organism() {
    let a = Biot::with_genome(genome_of("a"), (5, 5));
    assert!(BiotCollection::from_biots(vec![a], 6, 6).is_some());
    assert!(BiotCollection::from_biots(vec![a], 5, 6).is_none());
    assert!(BiotCollection::from_biots(vec![a], 0, 6).is_none());
    assert!(BiotCollection::from_biots(vec![a], 6, 100_000_001).is_none());
    let mut bent = a;
    bent.defense = 1;
    assert!(BiotCollection::from_biots(vec![a, bent], 6, 6).is_none());
}

#[test]
fn a_tick_keeps_every_organism_inside_the_world() {
    let mut biots = BiotCollection::new(150, 300_000, 200_000);
    for _ in 0..40 {
        let before = biots.len();
        biots.step();
        assert!(biots.len() <= 2 * before);
        for k in 0..biots.len() {
            let b = biots.get(k).expect("in range");
            assert!(b.is_valid(300_000, 200_000));
            assert_eq!(b.weight(), b.attack + b.defense + b.photosynthesis + b.motion);
        }
    }
}

#[test]
fn a_tick_removes_the_dead_and_resolves_combat() {
    let hunter = Biot::with_genome(genome_of("aaaaaaaaaa"), (5_000, 5_000));
    let prey = Biot::with_genome(genome_of("p"), (5_000, 5_000));
    let nothing = Biot::with_genome(['n'; 13], (90_000, 90_000));
    let mut biots =
        BiotCollection::from_biots(vec![hunter, prey, nothing], 100_000, 100_000).expect("valid");
    biots.step();
    assert_eq!(biots.len(), 1);
    let left = biots.get(0).expect("hunter");
    assert_eq!(left.genome, hunter.genome);
    // 80000 - 3600 for the tick, then four fifths of the prey's 8000 + 400
    assert_eq!(left.life, 80_000 - 3_600 + 6_720);
    assert_eq!(left.age, 1);
}

#[test]
fn the_target_is_the_nearest_weaker_organism_in_sight() {
    let me = Biot::with_genome(genome_of("iaa"), (0, 0));
    let shielded = Biot::with_genome(genome_of("ddd"), (1_000, 0));
    let weak = Biot::with_genome(genome_of("p"), (3_000, 0));
    let biots = vec![me, shielded, weak];
    let index = SpatialIndex::build(vec![(0, 0), (1_000, 0), (3_000, 0)]);
    let order = index.neighbors((0, 0));
    assert_eq!(choose_target(&biots, 0, &order), Some(2));
    assert_eq!(feed_direction(&biots, &index, 0), Some((1_000, 0)));
    // the others have no intelligence
    assert_eq!(feed_direction(&biots, &index, 1), None);
    assert_eq!(feed_direction(&biots, &index, 2), None);
}

#[test]
fn nothing_beyond_perception_is_a_target() {
    let me = Biot::with_genome(genome_of("iaa"), (0, 0));
    let weak = Biot::with_genome(genome_of("p"), (400_001, 0));
    let edge = Biot::with_genome(genome_of("p"), (0, 400_000));
    let index = SpatialIndex::build(vec![(0, 0), (400_001, 0)]);
    assert_eq!(feed_direction(&vec![me, weak], &index, 0), None);
    let index = SpatialIndex::build(vec![(0, 0), (0, 400_000)]);
    assert_eq!(feed_direction(&vec![me, edge], &index, 0), Some((0, 1_000)));
}

#[test]
fn a_target_at_the_same_place_gives_no_direction_to_move_in() {
    let me = Biot::with_genome(genome_of("iaa"), (7, 7));
    let weak = Biot::with_genome(genome_of("p"), (7, 7));
    let index = SpatialIndex::build(vec![(7, 7), (7, 7)]);
    assert_eq!(feed_direction(&vec![me, weak], &index, 0), Some((0, 0)));
}

#[test]
fn combat_is_resolved_pair_by_pair() {
    let a = Biot::with_genome(genome_of("aaaaaaaaaa"), (0, 0));
    let b = Biot::with_genome(genome_of("aap"), (0, 0));
    let c = Biot::with_genome(genome_of("p"), (0, 0));
    let mut biots = vec![a, b, c];
    resolve_combat(&mut biots, &vec![(1, 2), (0, 1), (0, 2)]);
    // b eats c: 24000 + 6400; a eats b: 80000 + 24320; c has nothing left to give
    assert_eq!(biots[2].life, 0);
    assert_eq!(biots[1].life, 0);
    assert_eq!(biots[0].life, 104_320);
}

#[test]
fn prune_keeps_the_living_in_order() {
    let mut old = Biot::with_genome(genome_of("p"), (0, 0));
    old.age = 10_000;
    let spent = Biot::with_genome(['n'; 13], (1, 0));
    let one = Biot::with_genome(genome_of("a"), (2, 0));
    let two = Biot::with_genome(genome_of("d"), (3, 0));
    let mut biots = vec![one, old, spent, two];
    prune(&mut biots);
    assert_eq!(biots.len(), 2);
    assert_eq!(biots[0].pos, (2, 0));
    assert_eq!(biots[1].pos, (3, 0));
}
