use biots::biot::Biot;
use biots::biot_collection::BiotCollection;

fn run(seed: u64, ticks: usize) -> Vec<Biot> {
    macroquad::rand::srand(seed);
    let mut biots = BiotCollection::new(120, 400_000, 300_000);
    for _ in 0..ticks {
        biots.step();
    }
    (0..biots.len()).map(|k| biots.get(k).expect("in range")).collect()
}

#[test]
fn the_same_seed_gives_the_same_run() {
    let first = run(2024, 60);
    let second = run(2024, 60);
    assert_eq!(first.len(), second.len());
    for (a, b) in first.iter().zip(second.iter()) {
        assert_eq!(a.genome, b.genome);
        assert_eq!(a.pos, b.pos);
        assert_eq!(a.speed, b.speed);
        assert_eq!(a.life, b.life);
        assert_eq!(a.age, b.age);
    }
}
