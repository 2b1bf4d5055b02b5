use foodsim::food::default_serving;
use foodsim::types::{fires_on_day, RollOnePastMax, Target};

#[test]
fn empty_recurrence_fires_every_day() {
    let recurrence: Vec<u8> = Vec::new();
    for day in 0..100 {
        assert!(fires_on_day(&recurrence, day));
    }
}

#[test]
fn weekly_recurrence_fires_on_multiples_of_seven() {
    let recurrence: Vec<u8> = vec![0b0000001];
    for day in 0..100 {
        assert_eq!(fires_on_day(&recurrence, day), day % 7 == 0);
    }
}

#[test]
fn second_weekday_bit_fires_on_day_one_of_each_week() {
    let recurrence: Vec<u8> = vec![0b0000010];
    for day in 0..100 {
        assert_eq!(fires_on_day(&recurrence, day), day % 7 == 1);
    }
}

#[test]
fn two_byte_recurrence_cycles_over_two_weeks() {
    // Week one: every day; week two: never; repeating.
    let recurrence: Vec<u8> = vec![0b0111_1111, 0];
    for day in 0..56 {
        let week = day / 7;
        assert_eq!(fires_on_day(&recurrence, day), week % 2 == 0);
    }
}

#[test]
fn roll_one_past_max_rejects_zero() {
    assert!(RollOnePastMax::new(0).is_none());
    let six = RollOnePastMax::new(6).unwrap();
    assert_eq!(six.u32(), 6);
    let default_roll = RollOnePastMax::default();
    assert_eq!(default_roll.u32(), 1);
}

#[test]
fn default_serving_is_one_hundred_grams() {
    assert_eq!(default_serving(), 100);
}

#[test]
fn default_target_is_the_fullness_threshold() {
    assert!(matches!(Target::default(), Target::BuyIfBelowThresholdFullnessThreshold));
}
