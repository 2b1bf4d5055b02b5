use foodsim::food::{PackOption, Type};
use foodsim::sim::{
    simulate, stats, Event, Food, PerfSnapshot, Shelf, TrackingStep,
};
use foodsim::types::BuyAllBasedOnFullnessParams;
use foodsim::xs::from_seed;

fn catalog() -> Vec<Type> {
    vec![
        Type {
            key: "rice".to_string(),
            options: vec![PackOption { grams: 300 }],
            serving: 100,
        },
        Type {
            key: "beans".to_string(),
            options: vec![PackOption { grams: 400 }],
            serving: 120,
        },
    ]
}

fn item(key: &str, pack: u16, grams: u16) -> Food {
    Food {
        key: key.to_string(),
        pack: PackOption { grams: pack },
        grams,
    }
}

fn eaten_sum(steps: &[TrackingStep]) -> u64 {
    steps
        .iter()
        .map(|s| match s {
            TrackingStep::Ate { eaten, .. } => *eaten as u64,
            _ => 0,
        })
        .sum()
}

fn starved_sum(steps: &[TrackingStep]) -> u64 {
    steps
        .iter()
        .map(|s| match s {
            TrackingStep::Starved(g) => *g as u64,
            _ => 0,
        })
        .sum()
}

#[test]
fn eating_from_one_item_decrements_it_exactly() {
    let food_types = catalog();
    let mut rng = from_seed([1u8; 16]);
    let mut study = Shelf {
        shelf: vec![item("rice", 300, 300)],
        perf: PerfSnapshot { out_count: 0, starved_count: 0 },
    };
    let mut steps = Vec::new();

    simulate(
        &mut rng,
        &mut study,
        &mut steps,
        &food_types,
        Event::Ate("rice".to_string(), 120),
    );

    assert_eq!(study.shelf.len(), 1);
    assert_eq!(study.shelf[0].grams, 180);
    assert_eq!(study.perf.out_count, 0);
    assert_eq!(study.perf.starved_count, 0);
    assert_eq!(eaten_sum(&steps), 120);
    assert_eq!(steps.len(), 1);
}

#[test]
fn depletion_spills_over_to_the_same_key_first() {
    let food_types = catalog();
    let mut rng = from_seed([1u8; 16]);
    let mut study = Shelf {
        shelf: vec![item("rice", 300, 300), item("rice", 300, 300)],
        perf: PerfSnapshot { out_count: 0, starved_count: 0 },
    };
    let mut steps = Vec::new();

    simulate(
        &mut rng,
        &mut study,
        &mut steps,
        &food_types,
        Event::Ate("rice".to_string(), 400),
    );

    // The first pack is emptied and removed; 100 grams come from the
    // second pack, with no penalty because the key matched.
    assert_eq!(study.shelf.len(), 1);
    assert_eq!(study.shelf[0].grams, 200);
    assert_eq!(study.perf.out_count, 0);
    assert_eq!(study.perf.starved_count, 0);
    assert_eq!(eaten_sum(&steps), 400);
}

#[test]
fn depletion_falls_back_to_the_best_substitute() {
    let food_types = catalog();
    let mut rng = from_seed([1u8; 16]);
    let mut study = Shelf {
        shelf: vec![item("rice", 300, 100), item("beans", 400, 400)],
        perf: PerfSnapshot { out_count: 0, starved_count: 0 },
    };
    let mut steps = Vec::new();

    simulate(
        &mut rng,
        &mut study,
        &mut steps,
        &food_types,
        Event::Ate("rice".to_string(), 250),
    );

    // 100 grams of rice, then the 150-gram deficit is charged to the out
    // counter and served from the beans.
    assert_eq!(study.shelf.len(), 1);
    assert_eq!(study.shelf[0].key, "beans");
    assert_eq!(study.shelf[0].grams, 250);
    assert_eq!(study.perf.out_count, 150);
    assert_eq!(study.perf.starved_count, 0);
    assert_eq!(eaten_sum(&steps), 250);
}

#[test]
fn eating_from_an_empty_shelf_starves() {
    let food_types = catalog();
    let mut rng = from_seed([1u8; 16]);
    let mut study = Shelf {
        shelf: Vec::new(),
        perf: PerfSnapshot { out_count: 0, starved_count: 0 },
    };
    let mut steps = Vec::new();

    simulate(
        &mut rng,
        &mut study,
        &mut steps,
        &food_types,
        Event::Ate("rice".to_string(), 77),
    );

    assert_eq!(study.perf.out_count, 77);
    assert_eq!(study.perf.starved_count, 1);
    assert_eq!(eaten_sum(&steps) + starved_sum(&steps), 77);
}

#[test]
fn unknown_key_charges_out_and_eats_slot_zero() {
    let food_types = catalog();
    let mut rng = from_seed([1u8; 16]);
    let mut study = Shelf {
        shelf: vec![item("beans", 400, 400)],
        perf: PerfSnapshot { out_count: 0, starved_count: 0 },
    };
    let mut steps = Vec::new();

    // A key the catalog does not know: the full amount is charged to the
    // out counter, then slot 0 absorbs it.
    simulate(
        &mut rng,
        &mut study,
        &mut steps,
        &food_types,
        Event::Ate("caviar".to_string(), 50),
    );

    assert_eq!(study.perf.out_count, 50);
    assert_eq!(study.perf.starved_count, 0);
    assert_eq!(study.shelf[0].grams, 350);
}

#[test]
fn purchase_meets_the_minimum_servings_bound() {
    let food_types = catalog();
    let mut rng = from_seed([1u8; 16]);
    let mut study = Shelf {
        shelf: Vec::new(),
        perf: PerfSnapshot { out_count: 0, starved_count: 0 },
    };
    let mut steps = Vec::new();

    // A 300-gram rice pack yields 3 servings; a bound of 7 servings needs
    // 3 packs.
    simulate(
        &mut rng,
        &mut study,
        &mut steps,
        &food_types,
        Event::Bought(item("rice", 300, 300), 7),
    );

    assert_eq!(study.shelf.len(), 3);
    assert_eq!(steps.len(), 3);
    assert!(steps.iter().all(|s| matches!(s, TrackingStep::Bought(300, _))));
    assert_eq!(study.perf.out_count, 0);
}

#[test]
fn purchase_without_bound_buys_one_pack() {
    let food_types = catalog();
    let mut rng = from_seed([1u8; 16]);
    let mut study = Shelf {
        shelf: Vec::new(),
        perf: PerfSnapshot { out_count: 0, starved_count: 0 },
    };
    let mut steps = Vec::new();

    simulate(
        &mut rng,
        &mut study,
        &mut steps,
        &food_types,
        Event::Bought(item("beans", 400, 400), 0),
    );

    assert_eq!(study.shelf.len(), 1);
    assert_eq!(study.shelf[0].grams, 400);
}

#[test]
fn fullness_pass_restocks_an_empty_shelf() {
    let food_types = catalog();
    let mut rng = from_seed([1u8; 16]);
    let mut study = Shelf {
        shelf: Vec::new(),
        perf: PerfSnapshot { out_count: 0, starved_count: 0 },
    };
    let mut steps = Vec::new();

    // An absent food counts as fullness zero, so with a positive
    // threshold every catalog entry is bought, one pack each.
    simulate(
        &mut rng,
        &mut study,
        &mut steps,
        &food_types,
        Event::BuyAllBasedOnFullness(BuyAllBasedOnFullnessParams {
            max_count: 10,
            offset: 0,
            fullness_threshold: 32768,
            minimum_purchase_servings: 0,
        }),
    );

    assert_eq!(study.shelf.len(), 2);
    assert_eq!(study.perf.out_count, 0);
}

#[test]
fn fullness_pass_respects_the_purchase_budget() {
    let food_types = catalog();
    let mut rng = from_seed([1u8; 16]);
    let mut study = Shelf {
        shelf: Vec::new(),
        perf: PerfSnapshot { out_count: 0, starved_count: 0 },
    };
    let mut steps = Vec::new();

    simulate(
        &mut rng,
        &mut study,
        &mut steps,
        &food_types,
        Event::BuyAllBasedOnFullness(BuyAllBasedOnFullnessParams {
            max_count: 1,
            offset: 0,
            fullness_threshold: 32768,
            minimum_purchase_servings: 0,
        }),
    );

    assert_eq!(study.shelf.len(), 1);
}

#[test]
fn fullness_pass_skips_well_stocked_foods() {
    let food_types = catalog();
    let mut rng = from_seed([1u8; 16]);
    let mut study = Shelf {
        shelf: vec![item("rice", 300, 300), item("beans", 400, 400)],
        perf: PerfSnapshot { out_count: 0, starved_count: 0 },
    };
    let mut steps = Vec::new();

    // Both foods are full packs, fullness 1, far above a threshold of
    // one half: nothing is bought.
    simulate(
        &mut rng,
        &mut study,
        &mut steps,
        &food_types,
        Event::BuyAllBasedOnFullness(BuyAllBasedOnFullnessParams {
            max_count: 10,
            offset: 0,
            fullness_threshold: 32768,
            minimum_purchase_servings: 0,
        }),
    );

    assert_eq!(study.shelf.len(), 2);
    assert!(steps.is_empty());
}

#[test]
fn performance_weighs_starvation_a_thousandfold() {
    let snapshot = PerfSnapshot { out_count: 5, starved_count: 2 };
    assert_eq!(snapshot.performance(), 2005);
}

#[test]
fn stats_sums_shelf_grams() {
    let study = Shelf {
        shelf: vec![item("rice", 300, 120), item("beans", 400, 400)],
        perf: PerfSnapshot { out_count: 3, starved_count: 1 },
    };
    let s = stats(&study);
    assert_eq!(s.total_items, 2);
    assert_eq!(s.total_grams, 520);
    assert_eq!(s.snapshot, PerfSnapshot { out_count: 3, starved_count: 1 });
}
