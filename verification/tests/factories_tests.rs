use azul::factories::{hash_factory, unhash_factory, Bag, Factories, NUM_FACTORIES};
use rand::rngs::SmallRng;
use rand::SeedableRng;

#[test]
fn test_empty_factories() {
    let factories = Factories::empty();

    for factory in factories.factories.iter() {
        for &tile_count in factory.iter() {
            assert_eq!(tile_count, 0);
        }
    }
}

#[test]
fn test_factories_refill_from_bag() {
    let mut factories: Factories = Factories::empty();
    let mut bag = [20, 20, 20, 20, 20];
    let mut out_of_bag: Bag = [0, 0, 0, 0, 0];
    let mut rng = SmallRng::seed_from_u64(42);

    factories.refill_by_drawing_from_bag(&mut bag, &mut out_of_bag, &mut rng);

    let remaining_tiles_in_bag = bag.iter().sum::<u8>();
    let expected_num_tiles_in_factories = 4 * (NUM_FACTORIES as u8 - 1);

    assert_eq!(remaining_tiles_in_bag, 100 - expected_num_tiles_in_factories);
}

#[test]
fn test_index_access() {
    let mut factories = Factories::empty();
    factories.factories[0][1] = 5;

    assert_eq!(factories.factories[0][1], 5);
}

#[test]
fn test_bag_refill_after_emptying() {
    let mut factories: Factories = Factories::empty();
    let mut bag = [1, 1, 1, 1, 1];
    let mut out_of_bag: Bag = [19, 19, 19, 19, 19];
    let mut rng = SmallRng::seed_from_u64(42);

    factories.refill_by_drawing_from_bag(&mut bag, &mut out_of_bag, &mut rng);

    assert_eq!(out_of_bag, [0, 0, 0, 0, 0]);
}

#[test]
fn test_bag_refill_not_enough_tiles() {
    let mut factories: Factories = Factories::empty();
    let mut bag = [0, 0, 0, 0, 0];
    let mut out_of_bag: Bag = [0, 0, 0, 0, 10];
    let mut rng = SmallRng::seed_from_u64(42);

    factories.refill_by_drawing_from_bag(&mut bag, &mut out_of_bag, &mut rng);

    assert_eq!(out_of_bag, [0, 0, 0, 0, 0]);
    assert_eq!(bag, [0, 0, 0, 0, 0]);
    let num_tiles_in_factories = factories.factories.iter().flatten().sum::<u8>();
    assert_eq!(num_tiles_in_factories, 10);
}

#[test]
fn refill_keeps_every_tile_and_leaves_the_center() {
    for seed in 0..50u64 {
        let mut factories = Factories::empty();
        let mut bag = [3, 0, 7, 2, 1];
        let mut out_of_bag: Bag = [5, 5, 0, 0, 4];
        let mut rng = SmallRng::seed_from_u64(seed);
        factories.refill_by_drawing_from_bag(&mut bag, &mut out_of_bag, &mut rng);
        for c in 0..5 {
            let on_factories: u8 = factories.factories.iter().map(|f| f[c]).sum();
            let before = [3, 0, 7, 2, 1][c] + [5, 5, 0, 0, 4][c];
            assert_eq!(on_factories + bag[c] + out_of_bag[c], before);
        }
        assert_eq!(factories.factories[5], [0, 0, 0, 0, 0]);
        for k in 0..5 {
            assert_eq!(factories.factories[k].iter().sum::<u8>(), 4);
        }
    }
}

#[test]
fn empty_factories_report_empty() {
    let mut factories = Factories::empty();
    assert!(factories.is_empty());
    factories.factories[5][2] = 1;
    assert!(!factories.is_empty());
}

#[test]
fn hash_and_unhash_cover_all_factory_contents() {
    let mut seen = [false; 71];
    for a in 0..=4u8 {
        for b in 0..=4u8 {
            for c in 0..=4u8 {
                for d in 0..=4u8 {
                    for e in 0..=4u8 {
                        let sum = a + b + c + d + e;
                        if sum != 4 && sum != 0 {
                            continue;
                        }
                        let factory = [a, b, c, d, e];
                        let index = hash_factory(&factory);
                        assert!(index < 71);
                        assert!(!seen[index]);
                        seen[index] = true;
                        assert_eq!(unhash_factory(index), factory);
                    }
                }
            }
        }
    }
    assert!(seen.iter().all(|s| *s));
    assert_eq!(hash_factory(&[0, 0, 0, 0, 0]), 70);
    assert_eq!(hash_factory(&[0, 1, 0, 3, 0]), 0);
}
