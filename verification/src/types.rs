//! The validated run specification: strategy parameter records, recurrence
//! schedules, and the top-level `Spec` the engine consumes.
//!
//! The configuration layer that parses and validates raw input lives
//! outside this crate; everything here assumes already-validated values.

use vstd::prelude::*;
use crate::food;
use crate::xs::Seed;

verus! {

/// The validated food catalog: a non-empty list of food types.
pub type FoodTypes = Vec<food::Type>;

/// How many items one shopping trip may add.
pub type ShoppingCount = u16;

/// A count of simulated days.
pub type DayCount = u16;

/// A wrapping offset into a list the strategies walk.
pub type IndexOffset = usize;

/// A fullness fraction in fixed-point units of `fixed::FIX_ONE`.
pub type FullnessThreshold = i64;

/// Parameters for the buy-if-below-threshold strategy.
#[derive(Clone, Copy, Debug)]
pub struct BuyAllBasedOnFullnessParams {
    pub max_count: ShoppingCount,
    pub offset: IndexOffset,
    pub fullness_threshold: FullnessThreshold,
    pub minimum_purchase_servings: food::Servings,
}

/// Parameters for the buy-if-half-empty strategy.
#[derive(Clone, Copy, Debug)]
pub struct BuyIfHalfEmptyParams {
    pub max_count: ShoppingCount,
    pub offset: IndexOffset,
}

/// Parameters for the buy-random-variety strategy.
#[derive(Clone, Copy, Debug)]
pub struct BuyRandomVarietyParams {
    pub count: ShoppingCount,
    pub offset: IndexOffset,
}

/// Parameters for the buy-n-of-everything strategy.
#[derive(Clone, Copy, Debug)]
pub struct BuyNOfEverythingParams {
    pub n: ShoppingCount,
}

/// Parameters for the buy-exactly strategy: one fixed purchase event.
#[derive(Clone, Debug)]
pub struct BuyExactlyParams {
    pub key_to_buy: food::Key,
    pub grams_to_buy: food::Grams,
}

/// Parameters for the eat-exactly strategy: one fixed consumption event.
#[derive(Clone, Debug)]
pub struct EatExactlyParams {
    pub key_to_eat: food::Key,
    pub grams_to_eat: food::Grams,
}

/// Parameters for the fixed-grams-per-day hunger strategy.
#[derive(Clone, Copy, Debug)]
pub struct FixedHungerAmountParams {
    pub grams_per_day: food::Grams,
}

/// Parameters for the fixed-servings-per-day hunger strategy.
#[derive(Clone, Copy, Debug)]
pub struct FixedServingsAmountParams {
    pub servings_per_day: food::Servings,
}

/// One past the max value of a die roll from 0. A value of 6 means a roll
/// over the 6 values 0 to 5 inclusive; something happens on a roll of 0 and
/// nothing otherwise. Always at least 1, so such a roll is always possible.
#[derive(Clone, Copy, Debug, PartialEq, Eq)]
pub struct RollOnePastMax {
    n: u8,
}

impl RollOnePastMax {
    /// The invariant: the roll bound is positive.
    #[verifier::type_invariant]
    pub closed spec fn inv(self) -> bool {
        self.n >= 1
    }

    /// The bound as a mathematical value.
    pub closed spec fn spec_u32(self) -> u32 {
        self.n as u32
    }

    /// Wraps a positive byte; `None` for zero.
    pub fn new(n: u8) -> (r: Option<RollOnePastMax>)
        ensures
            n == 0 <==> r is None,
            r matches Some(x) ==> x.spec_u32() == n,
    {
        if n == 0 {
            None
        } else {
            Some(RollOnePastMax { n })
        }
    }

    /// The bound, widened for the random-range draw.
    pub fn u32(self) -> (r: u32)
        ensures
            r == self.spec_u32(),
            1 <= r <= 255,
    {
        proof {
            use_type_invariant(&self);
        }
        self.n as u32
    }
}

impl Default for RollOnePastMax {
    /// The smallest bound: the roll is always 0, so the action always
    /// fires.
    fn default() -> (r: Self)
        ensures
            r.spec_u32() == 1,
    {
        RollOnePastMax { n: 1 }
    }
}

/// Parameters for the shop-some-days strategy.
#[derive(Clone, Copy, Debug)]
pub struct ShopSomeDaysParams {
    pub buy_count: u8,
    pub roll_one_past_max: RollOnePastMax,
}

/// Parameters for the occasional fully-random event.
#[derive(Clone, Copy, Debug)]
pub struct RandomEventParams {
    pub roll_one_past_max: RollOnePastMax,
}

/// The strategy kinds an event-source spec can select.
#[derive(Clone, Debug)]
pub enum EventSourceSpecKind {
    BuyIfBelowThreshold(BuyAllBasedOnFullnessParams),
    BuyIfHalfEmpty(BuyIfHalfEmptyParams),
    BuyRandomVariety(BuyRandomVarietyParams),
    BuyNOfEverything(BuyNOfEverythingParams),
    BuyExactly(BuyExactlyParams),
    EatExactly(EatExactlyParams),
    FixedHungerAmount(FixedHungerAmountParams),
    FixedServingsAmount(FixedServingsAmountParams),
    ShopSomeDays(ShopSomeDaysParams),
    RandomEvent(RandomEventParams),
}

/// A repeating 7-day-cycle bitmask: one byte per week of the cycle, one bit
/// per day. Empty means the source fires every day.
pub type Recurrence = Vec<u8>;

/// Whether a recurrence schedule fires on the given day index.
pub open spec fn spec_fires_on_day(recurrence: Seq<u8>, day: nat) -> bool {
    if recurrence.len() == 0 {
        true
    } else {
        let chunk = recurrence[(((day / 7) as int) % (recurrence.len() as int))];
        ((chunk >> ((day % 7) as u8)) & 1) == 1
    }
}

/// Evaluates the recurrence gate for one day: an empty schedule fires every
/// day; otherwise day `d` is bit `d % 7` of byte `(d / 7) % len`, cycling.
pub fn fires_on_day(recurrence: &Recurrence, day: usize) -> (r: bool)
    ensures
        r == spec_fires_on_day(recurrence@, day as nat),
{
    if recurrence.len() == 0 {
        return true;
    }
    let chunk_index = (day / 7) % recurrence.len();
    let bit_index = (day % 7) as u8;
    let chunk = recurrence[chunk_index];
    ((chunk >> bit_index) & 1) == 1
}

/// An event-source spec with recurrence byte 1 fires exactly on the days
/// that are multiples of 7, and an empty recurrence fires every day.
pub proof fn lemma_recurrence_gating(day: nat)
    ensures
        spec_fires_on_day(seq![1u8], day) <==> day % 7 == 0,
        spec_fires_on_day(Seq::<u8>::empty(), day),
{
    let b = (day % 7) as u8;
    assert(((1u8 >> b) & 1) == 1 <==> b == 0) by (bit_vector)
        requires
            b < 8,
    ;
}

/// One pluggable event source: a strategy kind plus its recurrence gate.
#[derive(Clone, Debug)]
pub struct EventSourceSpec {
    pub kind: EventSourceSpecKind,
    pub recurrence: Recurrence,
}

/// An exact copy of a strategy kind with its parameters.
pub fn clone_kind(k: &EventSourceSpecKind) -> (r: EventSourceSpecKind)
    ensures
        r == *k,
{
    match k {
        EventSourceSpecKind::BuyIfBelowThreshold(p) => EventSourceSpecKind::BuyIfBelowThreshold(
            *p,
        ),
        EventSourceSpecKind::BuyIfHalfEmpty(p) => EventSourceSpecKind::BuyIfHalfEmpty(*p),
        EventSourceSpecKind::BuyRandomVariety(p) => EventSourceSpecKind::BuyRandomVariety(*p),
        EventSourceSpecKind::BuyNOfEverything(p) => EventSourceSpecKind::BuyNOfEverything(*p),
        EventSourceSpecKind::BuyExactly(p) => EventSourceSpecKind::BuyExactly(
            BuyExactlyParams { key_to_buy: p.key_to_buy.clone(), grams_to_buy: p.grams_to_buy },
        ),
        EventSourceSpecKind::EatExactly(p) => EventSourceSpecKind::EatExactly(
            EatExactlyParams { key_to_eat: p.key_to_eat.clone(), grams_to_eat: p.grams_to_eat },
        ),
        EventSourceSpecKind::FixedHungerAmount(p) => EventSourceSpecKind::FixedHungerAmount(*p),
        EventSourceSpecKind::FixedServingsAmount(p) => EventSourceSpecKind::FixedServingsAmount(
            *p,
        ),
        EventSourceSpecKind::ShopSomeDays(p) => EventSourceSpecKind::ShopSomeDays(*p),
        EventSourceSpecKind::RandomEvent(p) => EventSourceSpecKind::RandomEvent(*p),
    }
}

/// An exact copy of a recurrence schedule.
pub fn clone_recurrence(rec: &Recurrence) -> (r: Recurrence)
    ensures
        r@ == rec@,
{
    let mut out: Vec<u8> = Vec::new();
    let mut i: usize = 0;
    while i < rec.len()
        invariant
            i <= rec@.len(),
            out@ =~= rec@.subrange(0, i as int),
        decreases rec@.len() - i,
    {
        out.push(rec[i]);
        i = i + 1;
    }
    proof {
        assert(out@ =~= rec@);
    }
    out
}

/// An exact copy of an event-source spec: the same kind, the same
/// schedule.
pub fn clone_event_source_spec(e: &EventSourceSpec) -> (r: EventSourceSpec)
    ensures
        r.kind == e.kind,
        r.recurrence@ == e.recurrence@,
{
    EventSourceSpec { kind: clone_kind(&e.kind), recurrence: clone_recurrence(&e.recurrence) }
}

/// Which strategy parameter a search or sweep varies.
#[derive(Clone, Copy, Debug)]
pub enum Target {
    BuyIfBelowThresholdFullnessThreshold,
    BuyIfBelowThresholdMinimumPurchaseServings,
}

impl Default for Target {
    fn default() -> (r: Self)
        ensures
            r is BuyIfBelowThresholdFullnessThreshold,
    {
        Target::BuyIfBelowThresholdFullnessThreshold
    }
}

/// Parameters of a parameter search, in fixed-point units.
#[derive(Clone, Copy, Debug)]
pub struct SearchSpec {
    pub target: Target,
    pub length: i64,
    pub offset: i64,
}

/// Parameters of a parameter sweep, in fixed-point units.
#[derive(Clone, Copy, Debug)]
pub struct PrintCallsSpec {
    pub target: Target,
    pub length: i64,
    pub offset: i64,
    pub step: i64,
}

/// What to do with a basic-mode spec: one run, a search, or a sweep.
#[derive(Clone, Debug)]
pub enum BasicMode {
    Run,
    Search(SearchSpec),
    PrintCalls(PrintCallsSpec),
}

/// The basic-mode payload: the catalog and the two event-source lists.
#[derive(Clone, Debug)]
pub struct BasicExtras {
    pub mode: BasicMode,
    pub food_types: FoodTypes,
    pub initial_event_source_specs: Vec<EventSourceSpec>,
    pub repeated_event_source_specs: Vec<EventSourceSpec>,
}

/// The mode discriminator of a validated spec.
#[derive(Clone, Debug)]
pub enum Mode {
    Minimal,
    Basic(BasicExtras),
}

impl Default for Mode {
    fn default() -> (r: Self)
        ensures
            r is Minimal,
    {
        Mode::Minimal
    }
}

/// A fully-validated run specification.
#[derive(Clone, Debug)]
pub struct Spec {
    pub mode: Mode,
    pub seed: Option<Seed>,
    pub day_count_min: DayCount,
    pub day_count_one_past_max: DayCount,
    pub hide_summary: bool,
    pub show_grams: bool,
    pub show_items: bool,
    pub show_step_by_step: bool,
}

impl Default for Spec {
    fn default() -> (r: Self)
        ensures
            r.mode is Minimal,
            r.seed is None,
            r.day_count_min == 0,
            r.day_count_one_past_max == 0,
            !r.hide_summary,
            !r.show_grams,
            !r.show_items,
            !r.show_step_by_step,
    {
        Spec {
            mode: Mode::Minimal,
            seed: None,
            day_count_min: 0,
            day_count_one_past_max: 0,
            hide_summary: false,
            show_grams: false,
            show_items: false,
            show_step_by_step: false,
        }
    }
}

} // verus!
