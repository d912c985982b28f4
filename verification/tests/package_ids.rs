use std::collections::HashSet;

use engine_core::package::{PackageId, PackageIdGenerator, PackageType};

fn categories() -> [(PackageType, usize); 4] {
    [
        (PackageType::Init, 3),
        (PackageType::Context, 5),
        (PackageType::State, 7),
        (PackageType::Output, 11),
    ]
}

#[test]
fn init_generator_follows_the_xor_sequence() {
    let mut generator = PackageIdGenerator::new(PackageType::Init);
    let produced: Vec<usize> = (0..8).map(|_| generator.next().as_usize()).collect();
    // counters 0..8 XOR 2 are 2, 3, 0, 1, 6, 7, 4, 5
    assert_eq!(produced, vec![6, 9, 0, 3, 18, 21, 12, 15]);
}

#[test]
fn first_identity_is_twice_the_multiplier() {
    for (category, multiplier) in categories() {
        let mut generator = PackageIdGenerator::new(category);
        assert_eq!(generator.next().as_usize(), multiplier * 2);
    }
}

#[test]
fn every_identity_is_multiplier_times_counter_xor_two() {
    for (category, multiplier) in categories() {
        let mut generator = PackageIdGenerator::new(category);
        for count in 0..200usize {
            assert_eq!(generator.next().as_usize(), multiplier * (count ^ 2));
        }
    }
}

#[test]
fn first_thousand_identities_are_pairwise_distinct() {
    for (category, _) in categories() {
        let mut generator = PackageIdGenerator::new(category);
        let mut seen: HashSet<PackageId> = HashSet::new();
        for _ in 0..1000 {
            assert!(seen.insert(generator.next()));
        }
        assert_eq!(seen.len(), 1000);
    }
}

#[test]
fn counters_zero_and_two_give_different_identities() {
    for (category, multiplier) in categories() {
        let mut generator = PackageIdGenerator::new(category);
        let at_zero = generator.next();
        let _at_one = generator.next();
        let at_two = generator.next();
        assert_eq!(at_zero.as_usize(), multiplier * 2);
        assert_eq!(at_two.as_usize(), 0);
        assert_ne!(at_zero, at_two);
    }
}

#[test]
fn identities_of_two_categories_can_coincide() {
    let mut init = PackageIdGenerator::new(PackageType::Init);
    let mut context = PackageIdGenerator::new(PackageType::Context);
    let init_ids: Vec<usize> = (0..8).map(|_| init.next().as_usize()).collect();
    let context_ids: Vec<usize> = (0..8).map(|_| context.next().as_usize()).collect();
    // 3 * 5 at counter 7 and 5 * 3 at counter 1
    assert_eq!(init_ids[7], 15);
    assert_eq!(context_ids[1], 15);
}

#[test]
fn two_generators_of_one_category_agree() {
    let mut first = PackageIdGenerator::new(PackageType::State);
    let mut second = PackageIdGenerator::new(PackageType::State);
    for _ in 0..50 {
        assert_eq!(first.next(), second.next());
    }
}

#[test]
fn package_id_round_trips_through_usize() {
    for raw in [0usize, 1, 42, 65_536, usize::MAX] {
        assert_eq!(PackageId::from(raw).as_usize(), raw);
    }
}

#[test]
fn package_id_equality_is_by_value() {
    assert_eq!(PackageId::from(7), PackageId::from(7));
    assert_ne!(PackageId::from(7), PackageId::from(8));
    let copy = PackageId::from(9);
    let same = copy;
    assert_eq!(copy, same);
}

#[test]
fn package_id_to_string_is_decimal() {
    assert_eq!(PackageId::from(0).to_string(), "0");
    assert_eq!(PackageId::from(7).to_string(), "7");
    assert_eq!(PackageId::from(10).to_string(), "10");
    assert_eq!(PackageId::from(1_234_567_890).to_string(), "1234567890");
    assert_eq!(PackageId::from(usize::MAX).to_string(), format!("{}", usize::MAX));
}

#[test]
fn generated_identity_prints_as_its_number() {
    let mut generator = PackageIdGenerator::new(PackageType::Output);
    let id = generator.next();
    assert_eq!(id.as_usize(), 22);
    assert_eq!(id.to_string(), "22");
}

#[test]
fn a_new_generator_can_advance() {
    for (category, _) in categories() {
        let mut generator = PackageIdGenerator::new(category);
        for _ in 0..100 {
            assert!(generator.can_advance());
            generator.next();
        }
    }
}
