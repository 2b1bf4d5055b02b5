//! The engine driver: expands the event-source specs into one flat event
//! sequence interleaved with day markers, replays it against a fresh
//! shelf, and scores the run with the worst snapshot seen.

use vstd::prelude::*;
use crate::events::{
    buy_exactly, buy_if_below_threshold, buy_if_half_empty, buy_n_of_everything,
    buy_random_variety, eat_exactly, events_ate_total, fixed_hunger_amount,
    fixed_servings_amount, random_event, shop_some_days, spec_contains_key,
    spec_extended_with_events, spec_is_catalog_ate, spec_is_first_option_purchase,
    spec_is_fresh_purchase, spec_is_positive_catalog_ate,
};
use crate::food::{Key, Type};
use crate::sim::{
    clone_food, simulate, stats, Event, EventEntry, Food, Performance, Shelf, Stats,
    TrackingStep,
};
use crate::types::{
    clone_event_source_spec, clone_kind, clone_recurrence, fires_on_day, BasicExtras, BasicMode,
    BuyAllBasedOnFullnessParams, EventSourceSpec, EventSourceSpecKind, Mode, Spec, Target,
};
use crate::xs::Xs;
use crate::xs;

verus! {

/// An entry is one of the consumption events of the given key.
pub open spec fn spec_is_ate_with_key(e: EventEntry, key: Seq<char>) -> bool {
    e matches EventEntry::Event(Event::Ate(k, g)) && k@ == key
}

/// Some consumption event of the run carries the key.
pub open spec fn spec_key_was_eaten(events: Seq<EventEntry>, key: Seq<char>) -> bool {
    exists|j: int| 0 <= j < events.len() && spec_is_ate_with_key(#[trigger] events[j], key)
}

/// A day-boundary marker.
pub open spec fn spec_is_day_boundary(e: EventEntry) -> bool {
    e is InitialDayMarker || e is DayMarker
}

/// Where the recency window starts: walking back from `start`, markers are
/// counted until three have been passed or the front is reached, stepping
/// one further each time.
pub open spec fn spec_window_start(events: Seq<EventEntry>, start: int, markers_seen: int) -> int
    decreases (if start > 0 { start } else { 0 }),
{
    if start <= 0 || markers_seen >= 3 {
        start
    } else {
        spec_window_start(
            events,
            start - 1,
            markers_seen + (if spec_is_day_boundary(events[start]) {
                1int
            } else {
                0
            }),
        )
    }
}

/// The consumption keys collected forward from position `i` up to the
/// first day boundary.
pub open spec fn spec_window_keys(events: Seq<EventEntry>, i: int) -> Seq<Key>
    decreases events.len() - i,
{
    if i < 0 || i >= events.len() {
        Seq::empty()
    } else {
        match events[i] {
            EventEntry::Event(ev) => match ev {
                Event::Ate(k, _) => seq![k] + spec_window_keys(events, i + 1),
                _ => spec_window_keys(events, i + 1),
            },
            _ => Seq::empty(),
        }
    }
}

/// The recency context an event source sees: the keys of the window
/// `recently_eaten_foods` computes over the events emitted so far.
pub open spec fn spec_recent_keys(events: Seq<EventEntry>) -> Seq<Key> {
    spec_window_keys(
        events,
        spec_window_start(
            events,
            (if events.len() == 0 {
                0int
            } else {
                events.len() - 1
            }),
            0,
        ),
    )
}

/// The keys eaten in the trailing window the recency filter looks at:
/// found by walking back over up to three day markers and collecting the
/// consumption keys of the earliest day of that window. Every returned key
/// comes from some consumption event of the run.
pub fn recently_eaten_foods(events: &Vec<EventEntry>) -> (r: Vec<Key>)
    ensures
        r@ == spec_recent_keys(events@),
        forall|i: int|
            0 <= i < r@.len() ==> spec_key_was_eaten(events@, (#[trigger] r@[i])@),
{
    let ghost init_start: int = if events@.len() == 0 {
        0int
    } else {
        events@.len() - 1
    };
    let mut start_index = events.len().saturating_sub(1);

    let mut day_marker_count: u32 = 0;

    while start_index > 0 && day_marker_count < 3
        invariant
            start_index < events@.len() || start_index == 0,
            day_marker_count <= 3,
            spec_window_start(events@, init_start, 0) == spec_window_start(
                events@,
                start_index as int,
                day_marker_count as int,
            ),
        decreases start_index,
    {
        if matches!(events[start_index], EventEntry::InitialDayMarker | EventEntry::DayMarker) {
            proof {
                assert(spec_is_day_boundary(events@[start_index as int]));
            }
            day_marker_count = day_marker_count + 1;
        } else {
            proof {
                assert(!spec_is_day_boundary(events@[start_index as int]));
            }
        }
        start_index = start_index - 1;
    }

    let ghost start0 = start_index as int;
    proof {
        assert(spec_window_start(events@, init_start, 0) == start0);
    }

    let mut recently: Vec<Key> = Vec::new();

    let mut idx = start_index;
    while idx < events.len()
        invariant
            start0 <= idx <= events@.len(),
            spec_window_keys(events@, start0) == recently@ + spec_window_keys(
                events@,
                idx as int,
            ),
            forall|i: int|
                0 <= i < recently@.len() ==> spec_key_was_eaten(
                    events@,
                    (#[trigger] recently@[i])@,
                ),
        ensures
            recently@ == spec_window_keys(events@, start0),
            forall|i: int|
                0 <= i < recently@.len() ==> spec_key_was_eaten(
                    events@,
                    (#[trigger] recently@[i])@,
                ),
        decreases events@.len() - idx,
    {
        let ghost pre = recently@;
        match &events[idx] {
            EventEntry::Event(Event::Ate(key, _)) => {
                let k = key.clone();
                recently.push(k);
                proof {
                    assert(spec_is_ate_with_key(events@[idx as int], recently@.last()@));
                    assert(spec_key_was_eaten(events@, recently@.last()@));
                    assert(spec_window_keys(events@, idx as int) =~= seq![recently@.last()]
                        + spec_window_keys(events@, idx + 1));
                    assert(recently@ + spec_window_keys(events@, idx + 1) =~= pre
                        + spec_window_keys(events@, idx as int));
                }
            },
            EventEntry::Event(Event::Bought(..)) => {},
            EventEntry::Event(Event::BuyAllBasedOnFullness(..)) => {},
            EventEntry::InitialDayMarker => {
                proof {
                    assert(spec_window_keys(events@, idx as int) =~= Seq::<Key>::empty());
                    assert(recently@ + spec_window_keys(events@, idx as int) =~= recently@);
                }
                break ;
            },
            EventEntry::DayMarker => {
                proof {
                    assert(spec_window_keys(events@, idx as int) =~= Seq::<Key>::empty());
                    assert(recently@ + spec_window_keys(events@, idx as int) =~= recently@);
                }
                break ;
            },
        }
        idx = idx + 1;
    }

    recently
}

/// What one application of an event-source spec appends, by strategy
/// kind, with the recency context taken over the events emitted so far.
pub open spec fn spec_source_applied(
    old_ev: Seq<EventEntry>,
    new_ev: Seq<EventEntry>,
    ts: Seq<Type>,
    kind: crate::types::EventSourceSpecKind,
) -> bool {
    let recent = spec_recent_keys(old_ev);
    let some_fresh = exists|t: int|
        0 <= t < ts.len() && !spec_contains_key(recent, (#[trigger] ts[t]).key@);
    match kind {
        EventSourceSpecKind::BuyIfBelowThreshold(p) => new_ev == old_ev.push(
            EventEntry::Event(Event::BuyAllBasedOnFullness(p)),
        ),
        EventSourceSpecKind::BuyIfHalfEmpty(p) => new_ev == old_ev.push(
            EventEntry::Event(
                Event::BuyAllBasedOnFullness(
                    crate::types::BuyAllBasedOnFullnessParams {
                        max_count: p.max_count,
                        offset: p.offset,
                        fullness_threshold: crate::fixed::FIX_HALF,
                        minimum_purchase_servings: 0,
                    },
                ),
            ),
        ),
        EventSourceSpecKind::BuyRandomVariety(p) => {
            &&& new_ev.len() == old_ev.len() + p.count
            &&& forall|i: int|
                old_ev.len() <= i < new_ev.len() ==> spec_is_fresh_purchase(
                    #[trigger] new_ev[i],
                    ts,
                )
        },
        EventSourceSpecKind::BuyNOfEverything(p) => {
            &&& new_ev.len() == old_ev.len() + p.n as int * ts.len()
            &&& forall|k: int|
                old_ev.len() <= k < new_ev.len() ==> spec_is_first_option_purchase(
                    #[trigger] new_ev[k],
                    ts[(k - old_ev.len()) / (p.n as int)],
                )
        },
        EventSourceSpecKind::BuyExactly(p) => {
            &&& new_ev.len() == old_ev.len() + 1
            &&& (new_ev.last() matches EventEntry::Event(Event::Bought(f, m)) && f.key@
                == p.key_to_buy@ && f.grams == p.grams_to_buy && f.pack.grams == p.grams_to_buy
                && m == 0)
        },
        EventSourceSpecKind::EatExactly(p) => {
            &&& new_ev.len() == old_ev.len() + 1
            &&& (new_ev.last() matches EventEntry::Event(Event::Ate(k, g)) && k@ == p.key_to_eat@
                && g == p.grams_to_eat)
        },
        EventSourceSpecKind::FixedHungerAmount(p) => {
            &&& events_ate_total(new_ev) == events_ate_total(old_ev) + p.grams_per_day
            &&& forall|i: int|
                old_ev.len() <= i < new_ev.len() ==> spec_is_positive_catalog_ate(
                    #[trigger] new_ev[i],
                    ts,
                )
            &&& (some_fresh ==> forall|i: int|
                old_ev.len() <= i < new_ev.len() ==> ((#[trigger] new_ev[i]) matches
                    EventEntry::Event(Event::Ate(k, g)) ==> !spec_contains_key(recent, k@)))
        },
        EventSourceSpecKind::FixedServingsAmount(p) => {
            &&& forall|i: int|
                old_ev.len() <= i < new_ev.len() ==> spec_is_catalog_ate(
                    #[trigger] new_ev[i],
                    ts,
                )
            &&& (some_fresh ==> forall|i: int|
                old_ev.len() <= i < new_ev.len() ==> ((#[trigger] new_ev[i]) matches
                    EventEntry::Event(Event::Ate(k, g)) ==> !spec_contains_key(recent, k@)))
        },
        EventSourceSpecKind::ShopSomeDays(p) => {
            &&& (new_ev.len() == old_ev.len() || new_ev.len() == old_ev.len() + p.buy_count)
            &&& forall|i: int|
                old_ev.len() <= i < new_ev.len() ==> spec_is_fresh_purchase(
                    #[trigger] new_ev[i],
                    ts,
                )
        },
        EventSourceSpecKind::RandomEvent(p) => {
            &&& new_ev.len() <= old_ev.len() + 1
            &&& forall|i: int|
                old_ev.len() <= i < new_ev.len() ==> (spec_is_fresh_purchase(
                    #[trigger] new_ev[i],
                    ts,
                ) || spec_is_catalog_ate(new_ev[i], ts))
        },
    }
}

/// Applies one event-source spec once: computes the recent-history context
/// from the events emitted so far, then runs the strategy the spec
/// selects. Only events are appended, never day markers, and the appended
/// run is what the selected strategy's own contract promises.
pub fn apply_event_source(
    events: &mut Vec<EventEntry>,
    rng: &mut Xs,
    food_types: &Vec<Type>,
    es_spec: &EventSourceSpec,
)
    requires
        crate::food::food_types_wf(food_types@),
    ensures
        spec_extended_with_events(old(events)@, final(events)@),
        forall|i: int|
            old(events)@.len() <= i < final(events)@.len()
                ==> crate::events::spec_buys_full_pack(#[trigger] final(events)@[i]),
        spec_source_applied(old(events)@, final(events)@, food_types@, es_spec.kind),
{
    let recently = recently_eaten_foods(events);

    match &es_spec.kind {
        EventSourceSpecKind::BuyIfBelowThreshold(p) => {
            buy_if_below_threshold(events, p);
            proof {
                assert(events@.subrange(0, old(events)@.len() as int) =~= old(events)@);
            }
        },
        EventSourceSpecKind::BuyIfHalfEmpty(p) => {
            buy_if_half_empty(events, p);
            proof {
                assert(events@.subrange(0, old(events)@.len() as int) =~= old(events)@);
            }
        },
        EventSourceSpecKind::BuyRandomVariety(p) => {
            buy_random_variety(events, rng, food_types, p);
        },
        EventSourceSpecKind::BuyNOfEverything(p) => {
            buy_n_of_everything(events, food_types, p);
        },
        EventSourceSpecKind::BuyExactly(p) => {
            buy_exactly(events, p);
        },
        EventSourceSpecKind::EatExactly(p) => {
            eat_exactly(events, p);
        },
        EventSourceSpecKind::FixedHungerAmount(p) => {
            fixed_hunger_amount(events, rng, food_types, &recently, p);
        },
        EventSourceSpecKind::FixedServingsAmount(p) => {
            fixed_servings_amount(events, rng, food_types, &recently, p);
        },
        EventSourceSpecKind::ShopSomeDays(p) => {
            shop_some_days(events, rng, food_types, p);
        },
        EventSourceSpecKind::RandomEvent(p) => {
            random_event(events, rng, food_types, p);
        },
    }
}

/// How many start-of-run markers an entry run holds.
pub open spec fn initial_marker_count(s: Seq<EventEntry>) -> int
    decreases s.len(),
{
    if s.len() == 0 {
        0
    } else {
        initial_marker_count(s.drop_last()) + (if s.last() is InitialDayMarker {
            1int
        } else {
            0
        })
    }
}

/// How many end-of-day markers an entry run holds.
pub open spec fn day_marker_count(s: Seq<EventEntry>) -> int
    decreases s.len(),
{
    if s.len() == 0 {
        0
    } else {
        day_marker_count(s.drop_last()) + (if s.last() is DayMarker {
            1int
        } else {
            0
        })
    }
}

/// Appending one entry adds its contribution to the marker counts.
pub proof fn lemma_marker_counts_push(s: Seq<EventEntry>, e: EventEntry)
    ensures
        initial_marker_count(s.push(e)) == initial_marker_count(s) + (if e is InitialDayMarker {
            1int
        } else {
            0
        }),
        day_marker_count(s.push(e)) == day_marker_count(s) + (if e is DayMarker {
            1int
        } else {
            0
        }),
{
    assert(s.push(e).drop_last() =~= s);
}

/// Extending a run with events only never changes the marker counts.
pub proof fn lemma_marker_counts_extend(a: Seq<EventEntry>, b: Seq<EventEntry>)
    requires
        spec_extended_with_events(a, b),
    ensures
        initial_marker_count(b) == initial_marker_count(a),
        day_marker_count(b) == day_marker_count(a),
    decreases b.len(),
{
    if b.len() == a.len() {
        assert(b =~= a);
    } else {
        assert(spec_extended_with_events(a, b.drop_last())) by {
            assert(b.drop_last().subrange(0, a.len() as int) =~= b.subrange(0, a.len() as int));
        }
        lemma_marker_counts_extend(a, b.drop_last());
        assert(b.drop_last().push(b.last()) =~= b);
        lemma_marker_counts_push(b.drop_last(), b.last());
    }
}

/// Each entry is at most one kind of marker, so the marker counts are
/// bounded by the length.
pub proof fn lemma_marker_counts_le_len(s: Seq<EventEntry>)
    ensures
        day_marker_count(s) + initial_marker_count(s) <= s.len(),
        day_marker_count(s) >= 0,
        initial_marker_count(s) >= 0,
    decreases s.len(),
{
    if s.len() > 0 {
        lemma_marker_counts_le_len(s.drop_last());
    }
}

/// Expands the event-source specs into the flat event sequence: every
/// initial spec applied once under its day-0 recurrence gate, one
/// start-of-run marker, then for each simulated day every repeated spec
/// under its gate followed by an end-of-day marker.
pub fn generate_events(
    rng: &mut Xs,
    food_types: &Vec<Type>,
    initial_event_source_specs: &Vec<EventSourceSpec>,
    repeated_event_source_specs: &Vec<EventSourceSpec>,
    day_count: usize,
) -> (events: Vec<EventEntry>)
    requires
        crate::food::food_types_wf(food_types@),
    ensures
        initial_marker_count(events@) == 1,
        day_marker_count(events@) == day_count,
        events@.len() > day_count,
        forall|i: int|
            0 <= i < events@.len() ==> crate::events::spec_buys_full_pack(
                #[trigger] events@[i],
            ),
{
    let mut events: Vec<EventEntry> = Vec::new();
    proof {
        assert(events@ =~= Seq::<EventEntry>::empty());
    }

    let mut si: usize = 0;
    while si < initial_event_source_specs.len()
        invariant
            crate::food::food_types_wf(food_types@),
            initial_marker_count(events@) == 0,
            day_marker_count(events@) == 0,
            forall|i: int|
                0 <= i < events@.len() ==> crate::events::spec_buys_full_pack(
                    #[trigger] events@[i],
                ),
        decreases initial_event_source_specs@.len() - si,
    {
        let es_spec = &initial_event_source_specs[si];
        if fires_on_day(&es_spec.recurrence, 0) {
            let ghost pre = events@;
            apply_event_source(&mut events, rng, food_types, es_spec);
            proof {
                lemma_marker_counts_extend(pre, events@);
                assert forall|i: int|
                    0 <= i < events@.len() implies crate::events::spec_buys_full_pack(
                    #[trigger] events@[i],
                ) by {
                    if i < pre.len() {
                        assert(events@.subrange(0, pre.len() as int)[i] == events@[i]);
                        assert(events@[i] == pre[i]);
                    }
                }
            }
        }
        si = si + 1;
    }

    let ghost pre_marker = events@;
    events.push(EventEntry::InitialDayMarker);
    proof {
        lemma_marker_counts_push(pre_marker, EventEntry::InitialDayMarker);
        assert(events@.drop_last() =~= pre_marker);
    }

    let mut day: usize = 0;
    while day < day_count
        invariant
            crate::food::food_types_wf(food_types@),
            day <= day_count,
            initial_marker_count(events@) == 1,
            day_marker_count(events@) == day,
            forall|i: int|
                0 <= i < events@.len() ==> crate::events::spec_buys_full_pack(
                    #[trigger] events@[i],
                ),
        decreases day_count - day,
    {
        let mut ri: usize = 0;
        while ri < repeated_event_source_specs.len()
            invariant
                crate::food::food_types_wf(food_types@),
                initial_marker_count(events@) == 1,
                day_marker_count(events@) == day,
                forall|i: int|
                    0 <= i < events@.len() ==> crate::events::spec_buys_full_pack(
                        #[trigger] events@[i],
                    ),
            decreases repeated_event_source_specs@.len() - ri,
        {
            let es_spec = &repeated_event_source_specs[ri];
            if fires_on_day(&es_spec.recurrence, day) {
                let ghost pre = events@;
                apply_event_source(&mut events, rng, food_types, es_spec);
                proof {
                    lemma_marker_counts_extend(pre, events@);
                    assert forall|i: int|
                        0 <= i < events@.len() implies crate::events::spec_buys_full_pack(
                        #[trigger] events@[i],
                    ) by {
                        if i < pre.len() {
                            assert(events@.subrange(0, pre.len() as int)[i] == events@[i]);
                            assert(events@[i] == pre[i]);
                        }
                    }
                }
            }
            ri = ri + 1;
        }

        let ghost pre_day = events@;
        events.push(EventEntry::DayMarker);
        proof {
            lemma_marker_counts_push(pre_day, EventEntry::DayMarker);
            assert(events@.drop_last() =~= pre_day);
        }
        day = day + 1;
    }
    proof {
        lemma_marker_counts_le_len(events@);
    }

    events
}

/// Why a run could not be scored.
#[derive(Clone, Copy, Debug, PartialEq, Eq, Structural)]
pub enum RunError {
    /// The generated event sequence was not longer than the catalog, so
    /// its statistics would be meaningless. This marks a degenerate
    /// configuration, not a user-facing validation path.
    DegenerateEventSequence,
}

/// The scalar result of one run. The snapshots the score was taken over
/// ride along as ghost data, so the score's meaning stays visible to
/// callers without any run-time cost.
pub struct RunOutput {
    pub performance: Performance,
    pub snapshots: Ghost<Seq<Stats>>,
}

/// One entry of the per-run trace, for external formatting.
#[derive(Debug)]
pub enum TraceEntry {
    /// The start-of-run boundary.
    InitialDay,
    /// An end-of-day boundary, with the items then on the shelf.
    DayEnd { shelf_items: Vec<Food> },
    /// One replayed event and the steps it caused.
    EventSteps { steps: Vec<TrackingStep> },
}

/// The full result of one run: the score, the snapshot taken before each
/// event, and the step-by-step trace.
pub struct RunReport {
    pub performance: Performance,
    pub all_stats: Vec<Stats>,
    pub trace: Vec<TraceEntry>,
}

/// The worst (largest) penalty over a run of snapshots; zero when there
/// are none.
pub open spec fn spec_max_performance(s: Seq<Stats>) -> int
    decreases s.len(),
{
    if s.len() == 0 {
        0
    } else {
        let rest = spec_max_performance(s.drop_last());
        let last = s.last().snapshot.spec_performance() as int;
        if last > rest {
            last
        } else {
            rest
        }
    }
}

/// The run's score is the maximum penalty over all captured snapshots —
/// the worst sustained shortfall — and never their sum.
pub fn worst_performance(all_stats: &Vec<Stats>) -> (r: Performance)
    ensures
        r == spec_max_performance(all_stats@),
{
    let mut performance: Performance = 0;
    let mut i: usize = 0;
    while i < all_stats.len()
        invariant
            i <= all_stats@.len(),
            performance == spec_max_performance(all_stats@.subrange(0, i as int)),
        decreases all_stats@.len() - i,
    {
        let ghost pre = all_stats@.subrange(0, i as int);
        let ghost post = all_stats@.subrange(0, i + 1 as int);
        proof {
            assert(post.drop_last() =~= pre);
            assert(post.last() == all_stats@[i as int]);
        }
        let p = all_stats[i].snapshot.performance();
        if p > performance {
            performance = p;
        }
        i = i + 1;
    }
    proof {
        assert(all_stats@.subrange(0, all_stats@.len() as int) =~= all_stats@);
    }
    performance
}

/// An exact copy of an event.
pub fn clone_event(e: &Event) -> (r: Event)
    ensures
        r == *e,
{
    match e {
        Event::Ate(key, grams) => Event::Ate(key.clone(), *grams),
        Event::Bought(food, min) => Event::Bought(clone_food(food), *min),
        Event::BuyAllBasedOnFullness(params) => Event::BuyAllBasedOnFullness(*params),
    }
}

/// An exact copy of the items on the shelf.
fn clone_shelf_items(shelf: &Vec<Food>) -> (r: Vec<Food>)
    ensures
        r@ == shelf@,
{
    let mut items: Vec<Food> = Vec::new();
    let mut i: usize = 0;
    while i < shelf.len()
        invariant
            i <= shelf@.len(),
            items@ =~= shelf@.subrange(0, i as int),
        decreases shelf@.len() - i,
    {
        items.push(clone_food(&shelf[i]));
        i = i + 1;
    }
    proof {
        assert(items@ =~= shelf@);
    }
    items
}

/// A spec the engine can run: a validated basic-mode spec with a non-empty
/// catalog, non-empty event-source lists, and a non-empty day-count range.
pub open spec fn spec_can_run(s: Spec) -> bool {
    &&& s.day_count_min < s.day_count_one_past_max
    &&& (s.mode matches Mode::Basic(extras) && crate::food::food_types_wf(extras.food_types@)
        && extras.initial_event_source_specs@.len() >= 1
        && extras.repeated_event_source_specs@.len() >= 1)
}

/// Runs the whole engine once and reports the score, the pre-event
/// snapshots, and the step-by-step trace.
///
/// The score is exactly the maximum penalty over the captured snapshots.
/// The error is returned exactly when the generated event sequence is not
/// longer than the catalog.
pub fn run_report(spec: &Spec) -> (r: Result<RunReport, RunError>)
    requires
        spec_can_run(*spec),
    ensures
        r matches Ok(rep) ==> rep.performance == spec_max_performance(rep.all_stats@),
        r matches Ok(rep) ==> (spec.mode matches Mode::Basic(extras) && rep.trace@.len()
            > extras.food_types@.len() && rep.all_stats@.len() <= rep.trace@.len()),
        r matches Ok(rep) ==> (forall|i: int|
            0 <= i < rep.trace@.len() ==> ((#[trigger] rep.trace@[i]) matches
                TraceEntry::DayEnd { shelf_items } ==> crate::sim::shelf_items_wf(
                shelf_items@,
            ))),
        (spec.mode matches Mode::Basic(extras) && spec.day_count_min
            >= extras.food_types@.len()) ==> r is Ok,
{
    let extras = match &spec.mode {
        Mode::Basic(extras) => extras,
        Mode::Minimal => {
            proof {
                assert(false);
            }
            vstd::pervasive::unreached()
        },
    };

    let mut study: Shelf = Shelf::new();

    let seed = match spec.seed {
        Some(s) => s,
        None => [0u8, 0, 0, 0, 0, 0, 0, 0, 0, 0, 0, 0, 0, 0, 0, 0],
    };
    let mut rng = xs::from_seed(seed);

    let day_count_min = spec.day_count_min as u32;
    let day_count_one_past_max = spec.day_count_one_past_max as u32;

    let day_count = xs::range(&mut rng, day_count_min, day_count_one_past_max) as usize;

    let events = generate_events(
        &mut rng,
        &extras.food_types,
        &extras.initial_event_source_specs,
        &extras.repeated_event_source_specs,
        day_count,
    );

    if !(events.len() > extras.food_types.len()) {
        return Err(RunError::DegenerateEventSequence);
    }

    let mut all_stats: Vec<Stats> = Vec::new();
    let mut trace: Vec<TraceEntry> = Vec::new();

    let mut i: usize = 0;
    while i < events.len()
        invariant
            crate::food::food_types_wf(extras.food_types@),
            i <= events@.len(),
            trace@.len() == i,
            all_stats@.len() <= i,
            crate::sim::shelf_items_wf(study.shelf@),
            forall|j: int|
                0 <= j < events@.len() ==> crate::events::spec_buys_full_pack(
                    #[trigger] events@[j],
                ),
            forall|j: int|
                0 <= j < trace@.len() ==> ((#[trigger] trace@[j]) matches
                    TraceEntry::DayEnd { shelf_items } ==> crate::sim::shelf_items_wf(
                    shelf_items@,
                )),
        decreases events@.len() - i,
    {
        match &events[i] {
            EventEntry::InitialDayMarker => {
                trace.push(TraceEntry::InitialDay);
            },
            EventEntry::DayMarker => {
                trace.push(TraceEntry::DayEnd { shelf_items: clone_shelf_items(&study.shelf) });
            },
            EventEntry::Event(event) => {
                all_stats.push(stats(&study));

                let mut tracking_steps: Vec<TrackingStep> = Vec::new();
                let owned = clone_event(event);
                simulate(
                    &mut rng,
                    &mut study,
                    &mut tracking_steps,
                    &extras.food_types,
                    owned,
                );
                trace.push(TraceEntry::EventSteps { steps: tracking_steps });
            },
        }
        i = i + 1;
    }

    let performance = worst_performance(&all_stats);

    Ok(RunReport { performance, all_stats, trace })
}

/// The targeted parameter value a fixed-point search coordinate stands
/// for: the threshold takes the coordinate as it is; the servings bound
/// takes its whole part, clamped into the serving range.
pub open spec fn spec_servings_of_coord(x: int) -> int {
    if x <= 0 {
        0
    } else if x >= 65536 * 65535 {
        65535
    } else {
        x / 65536
    }
}

/// The kind after a search step: a buy-if-below-threshold record has the
/// targeted parameter overwritten with the coordinate; every other kind
/// stays as it was.
pub open spec fn spec_kind_retargeted(
    old_kind: EventSourceSpecKind,
    new_kind: EventSourceSpecKind,
    target: Target,
    x: i64,
) -> bool {
    match old_kind {
        EventSourceSpecKind::BuyIfBelowThreshold(p) => new_kind
            == EventSourceSpecKind::BuyIfBelowThreshold(
            match target {
                Target::BuyIfBelowThresholdFullnessThreshold => BuyAllBasedOnFullnessParams {
                    max_count: p.max_count,
                    offset: p.offset,
                    fullness_threshold: x,
                    minimum_purchase_servings: p.minimum_purchase_servings,
                },
                Target::BuyIfBelowThresholdMinimumPurchaseServings => BuyAllBasedOnFullnessParams {
                    max_count: p.max_count,
                    offset: p.offset,
                    fullness_threshold: p.fullness_threshold,
                    minimum_purchase_servings: spec_servings_of_coord(x as int) as u16,
                },
            },
        ),
        _ => new_kind == old_kind,
    }
}

/// Overwrites the targeted parameter of every buy-if-below-threshold
/// source with the search coordinate, copying everything else exactly.
pub fn retarget_specs(specs: &Vec<EventSourceSpec>, target: Target, x: i64) -> (r: Vec<
    EventSourceSpec,
>)
    ensures
        r@.len() == specs@.len(),
        forall|i: int|
            0 <= i < specs@.len() ==> spec_kind_retargeted(
                (#[trigger] specs@[i]).kind,
                r@[i].kind,
                target,
                x,
            ) && r@[i].recurrence@ == specs@[i].recurrence@,
{
    let mut out: Vec<EventSourceSpec> = Vec::new();
    let mut i: usize = 0;
    while i < specs.len()
        invariant
            i <= specs@.len(),
            out@.len() == i,
            forall|j: int|
                0 <= j < i ==> spec_kind_retargeted(
                    (#[trigger] specs@[j]).kind,
                    out@[j].kind,
                    target,
                    x,
                ) && out@[j].recurrence@ == specs@[j].recurrence@,
        decreases specs@.len() - i,
    {
        let ess = &specs[i];
        let kind = match &ess.kind {
            EventSourceSpecKind::BuyIfBelowThreshold(p) => {
                let params = match target {
                    Target::BuyIfBelowThresholdFullnessThreshold => BuyAllBasedOnFullnessParams {
                        max_count: p.max_count,
                        offset: p.offset,
                        fullness_threshold: x,
                        minimum_purchase_servings: p.minimum_purchase_servings,
                    },
                    Target::BuyIfBelowThresholdMinimumPurchaseServings => {
                        let servings: u16 = if x <= 0 {
                            0
                        } else if x >= 65536 * 65535 {
                            65535
                        } else {
                            (x / 65536) as u16
                        };
                        BuyAllBasedOnFullnessParams {
                            max_count: p.max_count,
                            offset: p.offset,
                            fullness_threshold: p.fullness_threshold,
                            minimum_purchase_servings: servings,
                        }
                    },
                };
                EventSourceSpecKind::BuyIfBelowThreshold(params)
            },
            _ => clone_kind(&ess.kind),
        };
        out.push(EventSourceSpec { kind, recurrence: clone_recurrence(&ess.recurrence) });
        i = i + 1;
    }
    out
}

/// An exact copy of the catalog, entry by entry.
fn clone_food_types(v: &Vec<Type>) -> (r: Vec<Type>)
    ensures
        r@.len() == v@.len(),
        forall|i: int|
            0 <= i < v@.len() ==> (#[trigger] r@[i]).key@ == v@[i].key@ && r@[i].options@
                == v@[i].options@ && r@[i].serving == v@[i].serving,
{
    let mut out: Vec<Type> = Vec::new();
    let mut i: usize = 0;
    while i < v.len()
        invariant
            i <= v@.len(),
            out@.len() == i,
            forall|j: int|
                0 <= j < i ==> (#[trigger] out@[j]).key@ == v@[j].key@ && out@[j].options@
                    == v@[j].options@ && out@[j].serving == v@[j].serving,
        decreases v@.len() - i,
    {
        out.push(crate::food::clone_type(&v[i]));
        i = i + 1;
    }
    out
}

/// An exact copy of a list of event-source specs.
fn clone_specs(v: &Vec<EventSourceSpec>) -> (r: Vec<EventSourceSpec>)
    ensures
        r@.len() == v@.len(),
        forall|i: int|
            0 <= i < v@.len() ==> (#[trigger] r@[i]).kind == v@[i].kind && r@[i].recurrence@
                == v@[i].recurrence@,
{
    let mut out: Vec<EventSourceSpec> = Vec::new();
    let mut i: usize = 0;
    while i < v.len()
        invariant
            i <= v@.len(),
            out@.len() == i,
            forall|j: int|
                0 <= j < i ==> (#[trigger] out@[j]).kind == v@[j].kind && out@[j].recurrence@
                    == v@[j].recurrence@,
        decreases v@.len() - i,
    {
        out.push(clone_event_source_spec(&v[i]));
        i = i + 1;
    }
    out
}

/// One full simulation run as a black-box search objective: the targeted
/// parameter of every repeated buy-if-below-threshold source is
/// overwritten with the fixed-point coordinate, a plain run is scored,
/// and the score comes back scaled into fixed point. A degenerate run
/// scores as bad as possible, and cannot occur once the day-count
/// minimum reaches the catalog size.
pub fn search_objective(spec: &Spec, target: Target, x: i64) -> (r: i64)
    requires
        spec_can_run(*spec),
    ensures
        r != i64::MAX ==> 0 <= r && r % 65536 == 0 && (exists|stats: Seq<Stats>|
            r == spec_max_performance(stats) * 65536),
        (spec.mode matches Mode::Basic(extras) && spec.day_count_min
            >= extras.food_types@.len()) ==> r != i64::MAX,
{
    let extras = match &spec.mode {
        Mode::Basic(extras) => extras,
        Mode::Minimal => {
            proof {
                assert(false);
            }
            vstd::pervasive::unreached()
        },
    };

    let probe = Spec {
        mode: Mode::Basic(
            BasicExtras {
                mode: BasicMode::Run,
                food_types: clone_food_types(&extras.food_types),
                initial_event_source_specs: clone_specs(&extras.initial_event_source_specs),
                repeated_event_source_specs: retarget_specs(
                    &extras.repeated_event_source_specs,
                    target,
                    x,
                ),
            },
        ),
        seed: spec.seed,
        day_count_min: spec.day_count_min,
        day_count_one_past_max: spec.day_count_one_past_max,
        hide_summary: spec.hide_summary,
        show_grams: spec.show_grams,
        show_items: spec.show_items,
        show_step_by_step: spec.show_step_by_step,
    };
    proof {
        assert(spec_can_run(probe));
    }

    match run(&probe) {
        Ok(out) => {
            let score: i64 = (out.performance as i64) * 65536;
            proof {
                assert(score == spec_max_performance(out.snapshots@) * 65536);
            }
            score
        },
        Err(_) => i64::MAX,
    }
}

/// Runs the whole engine once and returns the score alone: the maximum
/// penalty over the snapshots captured before each event of the run,
/// never their sum. Success is owed whenever the day-count minimum
/// reaches the catalog size; the error marks a degenerate configuration
/// whose generated event sequence was not longer than the catalog.
pub fn run(spec: &Spec) -> (r: Result<RunOutput, RunError>)
    requires
        spec_can_run(*spec),
    ensures
        r matches Ok(out) ==> out.performance == spec_max_performance(out.snapshots@),
        (spec.mode matches Mode::Basic(extras) && spec.day_count_min
            >= extras.food_types@.len()) ==> r is Ok,
{
    match run_report(spec) {
        Ok(report) => Ok(
            RunOutput { performance: report.performance, snapshots: Ghost(report.all_stats@) },
        ),
        Err(e) => Err(e),
    }
}

} // verus!
