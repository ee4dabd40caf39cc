use biots::biot::{crowding_distance, Biot};

fn genome_of(symbols: &str) -> [char; 13] {
    let mut genome = ['n'; 13];
    for (k, c) in symbols.chars().enumerate() {
        genome[k] = c;
    }
    genome
}

#[test]
fn stronger_compares_attack_with_attack_and_defense() {
    let a = Biot::with_genome(genome_of("aaa"), (0, 0));
    let b = Biot::with_genome(genome_of("add"), (0, 0));
    // 30 > 10 + 18
    assert!(a.stronger(&b));
    assert!(!b.stronger(&a));
    let c = Biot::with_genome(genome_of("addd"), (0, 0));
    // 30 > 10 + 27 fails
    assert!(!a.stronger(&c));
    assert!(!c.stronger(&a));
}

#[test]
fn stronger_is_strict_where_both_sides_are_equal() {
    // nine tenths of attack against ten tenths of defense, weighted by 0.9
    let a = Biot::with_genome(genome_of("aaaaaaaaa"), (0, 0));
    let d = Biot::with_genome(genome_of("dddddddddd"), (0, 0));
    assert!(!a.stronger(&d));
    assert!(!a.stronger(&a));
}

#[test]
fn stronger_never_holds_both_ways() {
    let genomes = ["", "a", "aa", "ad", "add", "aaad", "dddd", "aaaaaaddd", "pm", "aaaaaaaaaaaaa"];
    for g in genomes {
        for h in genomes {
            let a = Biot::with_genome(genome_of(g), (0, 0));
            let b = Biot::with_genome(genome_of(h), (0, 0));
            assert!(!(a.stronger(&b) && b.stronger(&a)));
        }
    }
}

#[test]
fn dead_when_life_is_spent_or_age_is_reached() {
    let mut b = Biot::with_genome(genome_of("p"), (0, 0));
    assert!(!b.dead());
    b.life = 0;
    assert!(b.dead());
    b.life = -5;
    assert!(b.dead());
    b.life = 1;
    b.age = 9_999;
    assert!(!b.dead());
    b.age = 10_000;
    assert!(b.dead());
}

#[test]
fn the_stronger_feeds_on_the_weaker_where_they_touch() {
    let a = Biot::with_genome(genome_of("aaaaaaaaaa"), (5_000, 5_000));
    let b = Biot::with_genome(genome_of("p"), (5_000, 5_000));
    assert_eq!((a.weight(), b.weight()), (10, 1));
    assert_eq!((a.life, b.life), (80_000, 8_000));
    let mut biots = vec![a, b];
    Biot::interact(&mut biots, 0, 1);
    assert_eq!(biots[1].life, 0);
    assert_eq!(biots[0].life, 86_400);

    let mut other_way = vec![b, a];
    Biot::interact(&mut other_way, 0, 1);
    assert_eq!(other_way[0].life, 0);
    assert_eq!(other_way[1].life, 86_400);
}

#[test]
fn no_fight_out_of_reach_or_without_a_stronger_one() {
    let a = Biot::with_genome(genome_of("aaaaaaaaaa"), (0, 0));
    let far = Biot::with_genome(genome_of("p"), (11_000, 0));
    let mut biots = vec![a, far];
    Biot::interact(&mut biots, 0, 1);
    assert_eq!((biots[0].life, biots[1].life), (80_000, 8_000));

    let near = Biot::with_genome(genome_of("p"), (10_999, 0));
    let mut biots = vec![a, near];
    Biot::interact(&mut biots, 0, 1);
    assert_eq!((biots[0].life, biots[1].life), (86_400, 0));

    let p = Biot::with_genome(genome_of("p"), (0, 0));
    let q = Biot::with_genome(genome_of("pp"), (0, 0));
    let mut biots = vec![p, q];
    Biot::interact(&mut biots, 0, 1);
    assert_eq!((biots[0].life, biots[1].life), (8_000, 16_000));
}

#[test]
fn position_wraps_at_the_edge_of_the_world() {
    let mut b = Biot::with_genome(genome_of("p"), (799_999, 10));
    b.speed = (1_000, -20);
    b.advance(800_000, 600_000);
    assert_eq!(b.pos, (999, 599_990));
    assert_eq!(b.speed, (900, -18));
    assert_eq!(b.life, 8_000 + 400);
}

#[test]
fn a_tick_wraps_drags_feeds_and_ages() {
    let mut b = Biot::with_genome(genome_of("p"), (799_999, 0));
    b.speed = (1_000, 0);
    let child = b.step_with(None, None, 800_000, 600_000);
    assert!(child.is_none());
    assert_eq!(b.pos, (999, 0));
    assert_eq!(b.speed, (900, 0));
    assert_eq!(b.age, 1);
    assert_eq!(b.life, 8_400);
}

#[test]
fn reproduction_needs_four_times_the_base_life() {
    let mut b = Biot::with_genome(['p'; 13], (1_000, 2_000));
    assert_eq!(b.base_life(), 104_000);
    b.life = 415_999;
    assert!(!b.reproduces(None));
    b.life = 416_000;
    assert!(b.reproduces(None));
    assert!(b.reproduces(Some(200_000_001)));
    assert!(!b.reproduces(Some(200_000_000)));
    assert!(!b.reproduces(Some(0)));
}

#[test]
fn a_parent_pays_for_its_offspring() {
    let mut b = Biot::with_genome(['p'; 13], (1_000, 2_000));
    b.life = 416_000;
    b.age = 77;
    let child = b.step_with(None, None, 800_000, 600_000).expect("offspring");
    assert_eq!(b.life, 3 * 104_000 + 5_200);
    assert_eq!(b.age, 78);
    assert_eq!(b.speed, (0, 0));
    assert_eq!(child.age, 0);
    assert_eq!(child.pos, (1_000, 2_000));
    assert_eq!(child.life, child.base_life());
    assert_eq!(
        child.life,
        8_000 * i64::from(child.attack + child.defense + child.photosynthesis + child.motion)
    );
    assert!(child.speed.0.abs() <= 1_500 && child.speed.1.abs() <= 1_500);
    let changed = (0..13).filter(|&k| child.genome[k] != 'p').count();
    assert!(changed <= 64);
    assert!(child.is_valid(800_000, 600_000));
}

#[test]
fn a_crowded_parent_does_not_reproduce() {
    let mut b = Biot::with_genome(['p'; 13], (1_000, 2_000));
    b.life = 416_000;
    assert!(b.step_with(Some(150_000_000), None, 800_000, 600_000).is_none());
    assert_eq!(b.life, 416_000 + 5_200);
}

#[test]
fn an_organism_without_traits_neither_reproduces_nor_accelerates() {
    let mut b = Biot::with_genome(['n'; 13], (10, 10));
    assert_eq!(b.life, 0);
    assert!(!b.reproduces(None));
    b.life = 1_000_000;
    assert!(!b.reproduces(None));
    b.speed = (100, -100);
    for tick in 1..=20u32 {
        let before = b.speed;
        assert!(b.step_with(None, Some((1_000, 0)), 800_000, 600_000).is_none());
        assert_eq!(b.speed, (before.0 * 9 / 10, before.1 * 9 / 10));
        assert_eq!(b.age, tick);
    }
    let only_wits = Biot::with_genome(genome_of("iii"), (10, 10));
    assert_eq!(only_wits.weight(), 0);
    assert!(!only_wits.reproduces(None));
}

#[test]
fn accelerate_adds_the_scaled_direction() {
    let mut b = Biot::with_genome(genome_of("mp"), (0, 0));
    b.speed = (100, 100);
    b.accelerate((600, -800), 7, 2);
    assert_eq!(b.speed, (100 + 2_100, 100 - 2_800));
    b.accelerate((1_000, 1_000), 1_000, 1);
    assert_eq!(b.speed, (1_000_000, 997_300));
}

#[test]
fn random_move_pushes_by_at_most_the_speed() {
    for _ in 0..100 {
        let mut b = Biot::with_genome(genome_of("m"), (0, 0));
        b.random_move(3, 2);
        assert!(b.speed.0.abs() <= 1_500 && b.speed.1.abs() <= 1_500);
        assert_eq!(b.life, 8_000);
        assert_eq!(b.pos, (0, 0));
    }
}

#[test]
fn a_mover_steers_along_its_feeding_direction() {
    // all motion: the impulse is seven units whenever it comes
    let mut seen_push = false;
    for _ in 0..400 {
        let mut b = Biot::with_genome(genome_of("mmmmmmmmmmmmi"), (0, 0));
        b.step_with(None, Some((1_000, 0)), 800_000, 600_000);
        assert!(b.speed == (0, 0) || b.speed == (7_000, 0));
        seen_push = seen_push || b.speed == (7_000, 0);
    }
    assert!(seen_push);
}

#[test]
fn mutation_keeps_traits_in_line_with_the_genome() {
    let mut b = Biot::with_genome(genome_of("adpmi"), (3, 4));
    for _ in 0..100 {
        b.mutate();
        assert!(b.is_valid(10, 10));
    }
}

#[test]
fn random_biot_lies_inside_the_world() {
    for _ in 0..200 {
        let b = Biot::random_biot(50, 3);
        assert!(0 <= b.pos.0 && b.pos.0 < 50);
        assert!(0 <= b.pos.1 && b.pos.1 < 3);
        assert_eq!(b.speed, (0, 0));
        assert_eq!(b.age, 0);
        assert_eq!(b.life, b.base_life());
        assert!(b.genome.iter().all(|c| "adpmni".contains(*c)));
        assert!(b.is_valid(50, 3));
    }
}

#[test]
fn is_valid_rejects_traits_that_differ_from_the_genome() {
    let mut b = Biot::with_genome(genome_of("aa"), (1, 1));
    assert!(b.is_valid(2, 2));
    assert!(!b.is_valid(1, 2));
    b.attack = 3;
    assert!(!b.is_valid(2, 2));
}

#[test]
fn crowding_distance_is_that_of_the_sixth() {
    let order: Vec<(usize, i64)> = (0..6).map(|k| (k, (k as i64) * 10)).collect();
    assert_eq!(crowding_distance(&order), Some(50));
    assert_eq!(crowding_distance(&order[..5].to_vec()), None);
    assert_eq!(crowding_distance(&Vec::new()), None);
}
