use foodsim::events::{
    buy_exactly, buy_n_of_everything, buy_random_variety, eat_exactly, fixed_hunger_amount,
    random_event, shop_some_days,
};
use foodsim::food::{PackOption, Type};
use foodsim::sim::{Event, EventEntry};
use foodsim::types::{
    BuyExactlyParams, BuyNOfEverythingParams, BuyRandomVarietyParams, EatExactlyParams,
    FixedHungerAmountParams, RandomEventParams, RollOnePastMax, ShopSomeDaysParams,
};
use foodsim::xs::from_seed;

fn catalog() -> Vec<Type> {
    vec![
        Type {
            key: "rice".to_string(),
            options: vec![PackOption { grams: 300 }],
            serving: 100,
        },
        Type {
            key: "beans".to_string(),
            options: vec![PackOption { grams: 400 }],
            serving: 120,
        },
    ]
}

fn ate_events(events: &[EventEntry]) -> Vec<(String, u16)> {
    events
        .iter()
        .filter_map(|e| match e {
            EventEntry::Event(Event::Ate(k, g)) => Some((k.clone(), *g)),
            _ => None,
        })
        .collect()
}

#[test]
fn fixed_hunger_requests_exactly_the_daily_total() {
    let food_types = catalog();
    let mut rng = from_seed([11u8; 16]);
    let mut events = Vec::new();
    let recently: Vec<String> = Vec::new();

    fixed_hunger_amount(
        &mut events,
        &mut rng,
        &food_types,
        &recently,
        &FixedHungerAmountParams { grams_per_day: 500 },
    );

    let ate = ate_events(&events);
    assert!(!ate.is_empty());
    let total: u64 = ate.iter().map(|(_, g)| *g as u64).sum();
    assert_eq!(total, 500);
    for (key, grams) in &ate {
        assert!(key == "rice" || key == "beans");
        assert!(*grams >= 1);
    }
}

#[test]
fn fixed_hunger_avoids_recently_eaten_foods() {
    let food_types = catalog();
    let mut rng = from_seed([12u8; 16]);
    let mut events = Vec::new();
    let recently = vec!["rice".to_string()];

    fixed_hunger_amount(
        &mut events,
        &mut rng,
        &food_types,
        &recently,
        &FixedHungerAmountParams { grams_per_day: 300 },
    );

    for (key, _) in ate_events(&events) {
        assert_eq!(key, "beans");
    }
}

#[test]
fn fixed_hunger_with_everything_recent_still_eats() {
    let food_types = catalog();
    let mut rng = from_seed([13u8; 16]);
    let mut events = Vec::new();
    let recently = vec!["rice".to_string(), "beans".to_string()];

    fixed_hunger_amount(
        &mut events,
        &mut rng,
        &food_types,
        &recently,
        &FixedHungerAmountParams { grams_per_day: 100 },
    );

    let ate = ate_events(&events);
    let total: u64 = ate.iter().map(|(_, g)| *g as u64).sum();
    assert_eq!(total, 100);
}

#[test]
fn buy_n_of_everything_buys_first_options_in_order() {
    let food_types = catalog();
    let mut events = Vec::new();

    buy_n_of_everything(&mut events, &food_types, &BuyNOfEverythingParams { n: 2 });

    assert_eq!(events.len(), 4);
    let expected = [("rice", 300u16), ("rice", 300), ("beans", 400), ("beans", 400)];
    for (e, (key, grams)) in events.iter().zip(expected.iter()) {
        match e {
            EventEntry::Event(Event::Bought(f, 0)) => {
                assert_eq!(&f.key, key);
                assert_eq!(f.grams, *grams);
                assert_eq!(f.pack.grams, *grams);
            },
            _ => panic!("expected a purchase event"),
        }
    }
}

#[test]
fn buy_random_variety_walks_the_catalog_from_the_offset() {
    let food_types = catalog();
    let mut rng = from_seed([14u8; 16]);
    let mut events = Vec::new();

    buy_random_variety(
        &mut events,
        &mut rng,
        &food_types,
        &BuyRandomVarietyParams { count: 3, offset: 1 },
    );

    assert_eq!(events.len(), 3);
    let expected_keys = ["beans", "rice", "beans"];
    for (e, key) in events.iter().zip(expected_keys.iter()) {
        match e {
            EventEntry::Event(Event::Bought(f, 0)) => assert_eq!(&f.key, key),
            _ => panic!("expected a purchase event"),
        }
    }
}

#[test]
fn exact_sources_emit_one_fixed_event() {
    let mut events = Vec::new();
    eat_exactly(
        &mut events,
        &EatExactlyParams { key_to_eat: "rice".to_string(), grams_to_eat: 123 },
    );
    buy_exactly(
        &mut events,
        &BuyExactlyParams { key_to_buy: "beans".to_string(), grams_to_buy: 456 },
    );

    assert_eq!(events.len(), 2);
    assert!(matches!(
        &events[0],
        EventEntry::Event(Event::Ate(k, 123)) if k == "rice"
    ));
    assert!(matches!(
        &events[1],
        EventEntry::Event(Event::Bought(f, 0)) if f.key == "beans" && f.grams == 456
    ));
}

#[test]
fn shop_some_days_with_a_sure_roll_buys_the_count() {
    let food_types = catalog();
    let mut rng = from_seed([15u8; 16]);
    let mut events = Vec::new();

    // A roll bound of 1 always rolls 0, so shopping always happens.
    shop_some_days(
        &mut events,
        &mut rng,
        &food_types,
        &ShopSomeDaysParams {
            buy_count: 4,
            roll_one_past_max: RollOnePastMax::new(1).unwrap(),
        },
    );

    assert_eq!(events.len(), 4);
    for e in &events {
        assert!(matches!(e, EventEntry::Event(Event::Bought(_, 0))));
    }
}

#[test]
fn random_event_with_a_sure_roll_emits_one_event() {
    let food_types = catalog();
    let mut rng = from_seed([16u8; 16]);
    let mut events = Vec::new();

    random_event(
        &mut events,
        &mut rng,
        &food_types,
        &RandomEventParams { roll_one_past_max: RollOnePastMax::new(1).unwrap() },
    );

    assert_eq!(events.len(), 1);
    assert!(matches!(&events[0], EventEntry::Event(_)));
}
