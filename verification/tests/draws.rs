use namegen::{record_at, Gender, Generator, Name, NameKind, Origin};
use rand::rngs::StdRng;
use rand::SeedableRng;

fn person(text: &str, origin: Origin, gender: Gender, kind: NameKind) -> Name {
    Name { text: text.to_string(), origins: vec![origin], gender, kind }
}

fn village() -> Vec<Name> {
    vec![
        person("Aiko", Origin::Japanese, Gender::Female, NameKind::First),
        person("Sato", Origin::Japanese, Gender::Unisex, NameKind::Last),
        person("Akira", Origin::Japanese, Gender::Unisex, NameKind::First),
        person("Brigid", Origin::Irish, Gender::Female, NameKind::First),
        person("Asuka", Origin::Japanese, Gender::Female, NameKind::First),
        person("Murphy", Origin::Irish, Gender::Unisex, NameKind::Last),
        person("Ayumi", Origin::Japanese, Gender::Female, NameKind::First),
    ]
}

#[test]
fn record_at_copies_the_chosen_record() {
    let names = village();
    assert_eq!(record_at(&names, Some(0)), Some(names[0].clone()));
    assert_eq!(record_at(&names, Some(6)), Some(names[6].clone()));
    assert_eq!(record_at(&names, Some(3)).unwrap().text, "Brigid");
}

#[test]
fn record_at_yields_nothing_without_a_position_in_range() {
    let names = village();
    assert_eq!(record_at(&names, None), None);
    assert_eq!(record_at(&names, Some(7)), None);
    assert_eq!(record_at(&names, Some(usize::MAX)), None);
    assert_eq!(record_at(&[], Some(0)), None);
}

#[test]
fn a_single_candidate_is_always_drawn() {
    let names = village();
    let mut rng = StdRng::seed_from_u64(11);
    let mut query = Generator::new();
    query.by_origin(Origin::Irish).only_first_names();
    for _ in 0..20 {
        assert_eq!(query.finish(&names, &mut rng), Some(names[3].clone()));
    }
}

#[test]
fn draws_are_spread_evenly_over_the_candidates() {
    let names = village();
    let mut rng = StdRng::seed_from_u64(0x5eed);
    let mut query = Generator::new();
    query.by_first_letter('A').by_origin(Origin::Japanese);
    let found = query.candidates(&names);
    assert_eq!(found, vec![0, 2, 4, 6]);
    let rounds = 8000;
    let mut counts = vec![0usize; names.len()];
    for _ in 0..rounds {
        let drawn = query.finish(&names, &mut rng).unwrap();
        let position = names.iter().position(|n| *n == drawn).unwrap();
        counts[position] += 1;
    }
    for (position, count) in counts.iter().enumerate() {
        if found.contains(&position) {
            assert!(*count > 1800 && *count < 2200, "position {position} drawn {count} times");
        } else {
            assert_eq!(*count, 0);
        }
    }
}

#[test]
fn the_order_of_the_dataset_does_not_favour_a_record() {
    let mut names = village();
    names.reverse();
    let mut rng = StdRng::seed_from_u64(0xface);
    let mut query = Generator::new();
    query.only_last_names();
    let mut sato = 0;
    let mut murphy = 0;
    for _ in 0..4000 {
        match query.finish(&names, &mut rng).unwrap().text.as_str() {
            "Sato" => sato += 1,
            "Murphy" => murphy += 1,
            other => panic!("{other} is no last name"),
        }
    }
    assert!(sato > 1800 && sato < 2200);
    assert!(murphy > 1800 && murphy < 2200);
}

#[test]
fn equal_seeds_give_equal_draws() {
    let names = village();
    let mut query = Generator::new();
    query.by_origin(Origin::Japanese);
    let mut one = StdRng::seed_from_u64(77);
    let mut other = StdRng::seed_from_u64(77);
    for _ in 0..100 {
        assert_eq!(query.finish(&names, &mut one), query.finish(&names, &mut other));
        assert_eq!(query.full_name(&names, &mut one), query.full_name(&names, &mut other));
    }
}

#[test]
fn a_draw_leaves_the_generator_as_it_was() {
    let names = village();
    let mut rng = StdRng::seed_from_u64(13);
    let mut query = Generator::new();
    query.by_origin(Origin::Japanese).only_feminine().only_first_names();
    let before = query.candidates(&names);
    assert_eq!(before, vec![0, 4, 6]);
    let mut seen = vec![false; names.len()];
    for _ in 0..200 {
        let drawn = query.finish(&names, &mut rng).unwrap();
        seen[names.iter().position(|n| *n == drawn).unwrap()] = true;
        assert_eq!(query.candidates(&names), before);
    }
    assert_eq!(seen, vec![true, false, false, false, true, false, true]);
    let _ = query.full_name(&names, &mut rng);
    assert_eq!(query.candidates(&names), before);
}

#[test]
fn criteria_may_change_between_draws() {
    let names = village();
    let mut rng = StdRng::seed_from_u64(17);
    let mut query = Generator::new();
    query.by_origin(Origin::Irish).only_first_names();
    assert_eq!(query.finish(&names, &mut rng).unwrap().text, "Brigid");
    query.only_last_names();
    assert_eq!(query.finish(&names, &mut rng).unwrap().text, "Murphy");
    query.by_first_letter('S');
    assert_eq!(query.finish(&names, &mut rng), None);
    query.by_origin(Origin::Japanese);
    assert_eq!(query.finish(&names, &mut rng).unwrap().text, "Sato");
}

#[test]
fn the_two_halves_of_a_full_name_are_drawn_apart() {
    let names = village();
    let mut rng = StdRng::seed_from_u64(19);
    let mut pairs = std::collections::BTreeSet::new();
    for _ in 0..400 {
        let (first, last) = Generator::new().full_name(&names, &mut rng).unwrap();
        pairs.insert((first.text, last.text));
    }
    assert_eq!(pairs.len(), 10);
    assert!(pairs.contains(&("Brigid".to_string(), "Sato".to_string())));
    assert!(pairs.contains(&("Aiko".to_string(), "Murphy".to_string())));
}

#[test]
fn a_shared_origin_binds_both_halves_of_a_full_name() {
    let names = village();
    let mut rng = StdRng::seed_from_u64(23);
    let mut query = Generator::new();
    query.by_origin(Origin::Japanese);
    for _ in 0..50 {
        let (first, last) = query.full_name(&names, &mut rng).unwrap();
        assert_eq!(first.origins, vec![Origin::Japanese]);
        assert_eq!(last.text, "Sato");
    }
}

#[test]
fn duplicate_records_are_candidates_each() {
    let twin = person("Twin", Origin::Welsh, Gender::Unisex, NameKind::First);
    let other = person("Other", Origin::Welsh, Gender::Male, NameKind::First);
    let names = vec![twin.clone(), other, twin.clone()];
    let mut query = Generator::new();
    query.only_unisex();
    assert_eq!(query.candidates(&names), vec![0, 2]);
    let mut rng = StdRng::seed_from_u64(29);
    assert_eq!(query.finish(&names, &mut rng), Some(twin));
}
