use foodsim::food::{PackOption, Type};
use foodsim::run::{run, run_report, search_objective, worst_performance, RunError, TraceEntry};
use foodsim::sim::{PerfSnapshot, Stats, TrackingStep};
use foodsim::types::{
    BasicExtras, BasicMode, BuyExactlyParams, EventSourceSpec, EventSourceSpecKind,
    FixedHungerAmountParams, Mode, Spec,
};

fn one_food_catalog() -> Vec<Type> {
    vec![Type {
        key: "rice".to_string(),
        options: vec![PackOption { grams: 300 }],
        serving: 100,
    }]
}

fn scenario_spec() -> Spec {
    Spec {
        mode: Mode::Basic(BasicExtras {
            mode: BasicMode::Run,
            food_types: one_food_catalog(),
            initial_event_source_specs: vec![EventSourceSpec {
                kind: EventSourceSpecKind::BuyExactly(BuyExactlyParams {
                    key_to_buy: "rice".to_string(),
                    grams_to_buy: 300,
                }),
                recurrence: Vec::new(),
            }],
            repeated_event_source_specs: vec![EventSourceSpec {
                kind: EventSourceSpecKind::FixedHungerAmount(FixedHungerAmountParams {
                    grams_per_day: 250,
                }),
                recurrence: Vec::new(),
            }],
        }),
        seed: Some([42u8, 0, 0, 0, 0, 0, 0, 0, 0, 0, 0, 0, 0, 0, 0, 0]),
        day_count_min: 1,
        day_count_one_past_max: 2,
        hide_summary: false,
        show_grams: false,
        show_items: false,
        show_step_by_step: false,
    }
}

#[test]
fn single_day_hunger_scenario_stays_in_stock() {
    let report = run_report(&scenario_spec()).unwrap();

    // One simulated day.
    let day_ends = report
        .trace
        .iter()
        .filter(|t| matches!(t, TraceEntry::DayEnd { .. }))
        .count();
    assert_eq!(day_ends, 1);

    // Exactly one purchase: the initial 300-gram pack; the day itself is
    // purchase-free.
    let mut bought = 0u64;
    let mut eaten = 0u64;
    let mut starved = 0u64;
    for entry in &report.trace {
        if let TraceEntry::EventSteps { steps } = entry {
            for step in steps {
                match step {
                    TrackingStep::Bought(grams, _) => bought += *grams as u64,
                    TrackingStep::Ate { eaten: e, .. } => eaten += *e as u64,
                    TrackingStep::Starved(g) => starved += *g as u64,
                }
            }
        }
    }
    assert_eq!(bought, 300);
    assert!(eaten <= 250);
    assert_eq!(starved, 0);

    // Gram conservation: what remains on the shelf at the end of the day
    // is exactly what was bought minus what was eaten.
    let last_day_total: u64 = report
        .trace
        .iter()
        .filter_map(|t| match t {
            TraceEntry::DayEnd { shelf_items } => {
                Some(shelf_items.iter().map(|f| f.grams as u64).sum())
            },
            _ => None,
        })
        .last()
        .unwrap();
    assert_eq!(last_day_total, bought - eaten);

    // 250 grams of hunger against 300 grams of stock: no shortfall.
    assert_eq!(report.performance, 0);
    for s in &report.all_stats {
        assert_eq!(s.snapshot, PerfSnapshot { out_count: 0, starved_count: 0 });
    }
}

#[test]
fn identical_seed_and_spec_give_identical_runs() {
    let spec = scenario_spec();
    let a = run_report(&spec).unwrap();
    let b = run_report(&spec).unwrap();
    assert_eq!(a.performance, b.performance);
    assert_eq!(a.all_stats.len(), b.all_stats.len());
    assert_eq!(a.trace.len(), b.trace.len());
    for (sa, sb) in a.all_stats.iter().zip(b.all_stats.iter()) {
        assert_eq!(sa.snapshot, sb.snapshot);
        assert_eq!(sa.total_items, sb.total_items);
        assert_eq!(sa.total_grams, sb.total_grams);
    }

    let ra = run(&spec).unwrap();
    let rb = run(&spec).unwrap();
    assert_eq!(ra.performance, rb.performance);
    assert_eq!(ra.performance, a.performance);
}

#[test]
fn hunger_without_stock_is_penalised() {
    let mut spec = scenario_spec();
    if let Mode::Basic(extras) = &mut spec.mode {
        // Eat 400 grams a day against a single 300-gram pack.
        extras.repeated_event_source_specs = vec![EventSourceSpec {
            kind: EventSourceSpecKind::FixedHungerAmount(FixedHungerAmountParams {
                grams_per_day: 400,
            }),
            recurrence: Vec::new(),
        }];
    }
    let report = run_report(&spec).unwrap();
    assert!(report.performance > 0);
}

#[test]
fn gated_sources_can_degenerate_the_run() {
    let mut spec = scenario_spec();
    if let Mode::Basic(extras) = &mut spec.mode {
        // A recurrence byte of zero never fires, so only the two day
        // markers are generated: no more entries than catalog entries
        // would make the statistics meaningless.
        extras.food_types = vec![
            Type { key: "a".to_string(), options: vec![PackOption { grams: 1 }], serving: 1 },
            Type { key: "b".to_string(), options: vec![PackOption { grams: 1 }], serving: 1 },
            Type { key: "c".to_string(), options: vec![PackOption { grams: 1 }], serving: 1 },
        ];
        extras.initial_event_source_specs[0].recurrence = vec![0];
        extras.repeated_event_source_specs[0].recurrence = vec![0];
    }
    assert_eq!(run_report(&spec).err(), Some(RunError::DegenerateEventSequence));
}

#[test]
fn weekly_recurrence_limits_eating_days() {
    let mut spec = scenario_spec();
    if let Mode::Basic(extras) = &mut spec.mode {
        // The hunger source fires only on days congruent to 0 modulo 7;
        // with days 0 to 9 that is day 0 and day 7.
        extras.repeated_event_source_specs[0].recurrence = vec![0b0000001];
    }
    spec.day_count_min = 10;
    spec.day_count_one_past_max = 11;

    let report = run_report(&spec).unwrap();

    let day_ends = report
        .trace
        .iter()
        .filter(|t| matches!(t, TraceEntry::DayEnd { .. }))
        .count();
    assert_eq!(day_ends, 10);

    // Events: the one initial purchase, then hunger on exactly two days.
    // Every eating day requests 250 grams in total.
    let mut eaten_requested = 0u64;
    for entry in &report.trace {
        if let TraceEntry::EventSteps { steps } = entry {
            for step in steps {
                match step {
                    TrackingStep::Ate { eaten, .. } => eaten_requested += *eaten as u64,
                    TrackingStep::Starved(g) => eaten_requested += *g as u64,
                    TrackingStep::Bought(..) => {},
                }
            }
        }
    }
    // Two eating days of 250 grams each: every gram is either eaten or
    // starved.
    assert_eq!(eaten_requested, 500);
}

#[test]
fn shelf_items_never_exceed_their_pack_size() {
    let mut spec = scenario_spec();
    if let Mode::Basic(extras) = &mut spec.mode {
        extras.repeated_event_source_specs.push(EventSourceSpec {
            kind: EventSourceSpecKind::BuyExactly(BuyExactlyParams {
                key_to_buy: "rice".to_string(),
                grams_to_buy: 120,
            }),
            recurrence: Vec::new(),
        });
    }
    spec.day_count_min = 5;
    spec.day_count_one_past_max = 6;

    let report = run_report(&spec).unwrap();
    for entry in &report.trace {
        if let TraceEntry::DayEnd { shelf_items } = entry {
            for item in shelf_items {
                assert!(item.grams <= item.pack.grams);
            }
        }
    }
}

#[test]
fn search_objective_scores_the_scenario_run() {
    // The scenario never runs short, so any threshold coordinate scores 0.
    let spec = scenario_spec();
    let score = search_objective(&spec, foodsim::types::Target::BuyIfBelowThresholdFullnessThreshold, 32768);
    assert_eq!(score, 0);
    // The search coordinate only overwrites buy-if-below-threshold
    // sources, of which the scenario has none, so the score matches a
    // plain run.
    let report = run_report(&spec).unwrap();
    assert_eq!(score, report.performance as i64 * 65536);
}

#[test]
fn worst_performance_takes_the_maximum_not_the_sum() {
    let stats = vec![
        Stats {
            snapshot: PerfSnapshot { out_count: 10, starved_count: 0 },
            total_items: 0,
            total_grams: 0,
        },
        Stats {
            snapshot: PerfSnapshot { out_count: 0, starved_count: 2 },
            total_items: 0,
            total_grams: 0,
        },
        Stats {
            snapshot: PerfSnapshot { out_count: 500, starved_count: 1 },
            total_items: 0,
            total_grams: 0,
        },
    ];
    assert_eq!(worst_performance(&stats), 2000);

    let empty: Vec<Stats> = Vec::new();
    assert_eq!(worst_performance(&empty), 0);
}
