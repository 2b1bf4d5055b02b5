//! The simulation engine: the shelf of food items, the events that mutate
//! it, and the bookkeeping that scores a run.

use vstd::prelude::*;
use crate::food::{Grams, Key, PackOption, Servings, Type};
use crate::types::BuyAllBasedOnFullnessParams;
use crate::xs::Xs;
use crate::xs;

verus! {

/// The scalar penalty a run is scored by; lower is better.
pub type Performance = u32;

/// One item on the shelf: which food it is, the pack it was bought as, and
/// how many grams of it remain.
#[derive(Clone, Debug)]
pub struct Food {
    pub key: Key,
    pub pack: PackOption,
    pub grams: Grams,
}

/// A freshly bought pack of the given catalog entry: matching key, a pack
/// option of that entry, and full grams.
pub open spec fn spec_fresh_pack_of(f: Food, t: Type) -> bool {
    &&& f.key@ == t.key@
    &&& t.options@.contains(f.pack)
    &&& f.grams == f.pack.grams
}

/// A freshly bought pack of some catalog entry.
pub open spec fn spec_fresh_pack_of_catalog(f: Food, ts: Seq<Type>) -> bool {
    exists|i: int| 0 <= i < ts.len() && spec_fresh_pack_of(f, #[trigger] ts[i])
}

impl Food {
    /// A full pack of a uniformly drawn catalog entry, with a uniformly
    /// drawn pack option: the first draw picks the entry, the second its
    /// pack option.
    pub fn from_rng(food_types: &Vec<Type>, rng: &mut Xs) -> (r: Food)
        requires
            crate::food::food_types_wf(food_types@),
        ensures
            spec_fresh_pack_of_catalog(r, food_types@),
            ({
                let t = food_types@[crate::xs::spec_xorshift_word(old(rng)[3], old(rng)[0]) as int
                    % food_types@.len() as int];
                let mid = crate::xs::spec_xorshift_state(*old(rng));
                &&& r.key@ == t.key@
                &&& r.pack == t.options@[crate::xs::spec_xorshift_word(mid[3], mid[0]) as int
                    % t.options@.len() as int]
                &&& r.grams == r.pack.grams
            }),
            *final(rng) == crate::xs::spec_xorshift_state(
                crate::xs::spec_xorshift_state(*old(rng)),
            ),
    {
        let index = xs::range(rng, 0, food_types.len() as u32) as usize;

        let type_ = &food_types[index];

        Self::from_rng_of_type(type_, rng)
    }

    /// A full pack of the given catalog entry, as the pack option one
    /// uniform draw picks.
    pub fn from_rng_of_type(type_: &Type, rng: &mut Xs) -> (r: Food)
        requires
            crate::food::type_wf(*type_),
        ensures
            spec_fresh_pack_of(r, *type_),
            r.key@ == type_.key@,
            r.pack == type_.options@[crate::xs::spec_xorshift_word(old(rng)[3], old(rng)[0]) as int
                % type_.options@.len() as int],
            r.grams == r.pack.grams,
            *final(rng) == crate::xs::spec_xorshift_state(*old(rng)),
    {
        let option_index = xs::range(rng, 0, type_.options.len() as u32) as usize;
        let option = crate::food::clone_pack_option(&type_.options[option_index]);

        Self::of_type(type_, option)
    }

    /// A full pack of the given catalog entry as the given option.
    pub fn of_type(type_: &Type, option: PackOption) -> (r: Food)
        ensures
            r.key@ == type_.key@,
            r.pack == option,
            r.grams == option.grams,
    {
        Self::of_key(type_.key.clone(), option)
    }

    /// A full pack with the given key and option.
    pub fn of_key(key: Key, option: PackOption) -> (r: Food)
        ensures
            r.key == key,
            r.pack == option,
            r.grams == option.grams,
    {
        Food { key, grams: option.grams, pack: option }
    }
}

/// An exact copy of a shelf item.
pub fn clone_food(f: &Food) -> (r: Food)
    ensures
        r == *f,
{
    Food { key: f.key.clone(), pack: crate::food::clone_pack_option(&f.pack), grams: f.grams }
}

/// A snapshot of the data the performance metric needs: how many grams
/// could not be served, and how often nothing at all could be served.
#[derive(Clone, Copy, Debug, PartialEq, Eq, Structural)]
pub struct PerfSnapshot {
    pub out_count: Grams,
    pub starved_count: u16,
}

impl PerfSnapshot {
    /// The penalty this snapshot stands for.
    pub open spec fn spec_performance(self) -> Performance {
        (self.starved_count as u32 * 1000 + self.out_count as u32) as Performance
    }

    /// Starvations dominate the score: each one weighs as much as a
    /// thousand unserved grams.
    pub fn performance(&self) -> (r: Performance)
        ensures
            r == self.spec_performance(),
    {
        self.starved_count as Performance * 1000 + self.out_count as Performance
    }
}

/// The shelf: the currently held food items plus the running penalty
/// counters. Item order only matters to strategies that walk the shelf
/// with an offset.
#[derive(Debug)]
pub struct Shelf {
    pub shelf: Vec<Food>,
    pub perf: PerfSnapshot,
}

impl Shelf {
    /// An empty shelf with zeroed counters.
    pub fn new() -> (r: Shelf)
        ensures
            r.shelf@.len() == 0,
            r.perf == (PerfSnapshot { out_count: 0, starved_count: 0 }),
    {
        Shelf { shelf: Vec::new(), perf: PerfSnapshot { out_count: 0, starved_count: 0 } }
    }
}

impl Default for Shelf {
    fn default() -> (r: Shelf)
        ensures
            r.shelf@.len() == 0,
            r.perf == (PerfSnapshot { out_count: 0, starved_count: 0 }),
    {
        Shelf::new()
    }
}

/// One line of the step-by-step trace of a single event.
#[derive(Clone, Debug)]
pub enum TrackingStep {
    /// Nothing at all could be served for this many requested grams.
    Starved(Grams),
    /// Grams eaten from one shelf item, and the grams charged as
    /// unavailable at that hop.
    Ate { eaten: Grams, key: Key, out_count: Grams },
    /// One pack of this many grams was put on the shelf.
    Bought(Grams, Key),
}

/// The grams recorded as eaten across a run of tracking steps.
pub open spec fn eaten_total(steps: Seq<TrackingStep>) -> int
    decreases steps.len(),
{
    if steps.len() == 0 {
        0
    } else {
        eaten_total(steps.drop_last()) + (match steps.last() {
            TrackingStep::Ate { eaten, .. } => eaten as int,
            _ => 0,
        })
    }
}

/// The grams recorded as unavailable across a run of tracking steps.
pub open spec fn out_total(steps: Seq<TrackingStep>) -> int
    decreases steps.len(),
{
    if steps.len() == 0 {
        0
    } else {
        out_total(steps.drop_last()) + (match steps.last() {
            TrackingStep::Ate { out_count, .. } => out_count as int,
            _ => 0,
        })
    }
}

/// The grams recorded as starved across a run of tracking steps.
pub open spec fn starved_total(steps: Seq<TrackingStep>) -> int
    decreases steps.len(),
{
    if steps.len() == 0 {
        0
    } else {
        starved_total(steps.drop_last()) + (match steps.last() {
            TrackingStep::Starved(g) => g as int,
            _ => 0,
        })
    }
}

/// How many starvation steps a run of tracking steps holds.
pub open spec fn starved_steps(steps: Seq<TrackingStep>) -> int
    decreases steps.len(),
{
    if steps.len() == 0 {
        0
    } else {
        starved_steps(steps.drop_last()) + (match steps.last() {
            TrackingStep::Starved(_) => 1int,
            _ => 0,
        })
    }
}

/// Appending one step adds its contribution to every total.
pub proof fn lemma_totals_push(steps: Seq<TrackingStep>, step: TrackingStep)
    ensures
        eaten_total(steps.push(step)) == eaten_total(steps) + (match step {
            TrackingStep::Ate { eaten, .. } => eaten as int,
            _ => 0,
        }),
        out_total(steps.push(step)) == out_total(steps) + (match step {
            TrackingStep::Ate { out_count, .. } => out_count as int,
            _ => 0,
        }),
        starved_total(steps.push(step)) == starved_total(steps) + (match step {
            TrackingStep::Starved(g) => g as int,
            _ => 0,
        }),
        starved_steps(steps.push(step)) == starved_steps(steps) + (match step {
            TrackingStep::Starved(_) => 1int,
            _ => 0,
        }),
{
    assert(steps.push(step).drop_last() =~= steps);
}

/// Read-only summary of the shelf at one point in time.
#[derive(Clone, Copy, Debug)]
pub struct Stats {
    pub snapshot: PerfSnapshot,
    pub total_items: usize,
    pub total_grams: Grams,
}

/// The plain sum of the grams of a run of shelf items.
pub open spec fn grams_total(items: Seq<Food>) -> int
    decreases items.len(),
{
    if items.len() == 0 {
        0
    } else {
        grams_total(items.drop_last()) + items.last().grams as int
    }
}

/// A sum of gram counts is never negative.
pub proof fn lemma_grams_total_nonneg(items: Seq<Food>)
    ensures
        grams_total(items) >= 0,
    decreases items.len(),
{
    if items.len() > 0 {
        lemma_grams_total_nonneg(items.drop_last());
    }
}

/// Replacing one item changes the gram total by the difference of the two
/// items.
pub proof fn lemma_grams_total_update(s: Seq<Food>, i: int, item: Food)
    requires
        0 <= i < s.len(),
    ensures
        grams_total(s.update(i, item)) == grams_total(s) - s[i].grams + item.grams,
    decreases s.len(),
{
    let u = s.update(i, item);
    if i == s.len() - 1 {
        assert(u.drop_last() =~= s.drop_last());
        assert(u.last() == item);
    } else {
        assert(u.drop_last() =~= s.drop_last().update(i, item));
        assert(u.last() == s.last());
        lemma_grams_total_update(s.drop_last(), i, item);
    }
}

/// Gram totals distribute over concatenation.
pub proof fn lemma_grams_total_concat(a: Seq<Food>, b: Seq<Food>)
    ensures
        grams_total(a + b) == grams_total(a) + grams_total(b),
    decreases b.len(),
{
    if b.len() == 0 {
        assert(a + b =~= a);
    } else {
        lemma_grams_total_concat(a, b.drop_last());
        assert((a + b).drop_last() =~= a + b.drop_last());
        assert((a + b).last() == b.last());
    }
}

/// The gram total of `k` copies of one item.
pub proof fn lemma_grams_total_repeat(item: Food, k: nat)
    ensures
        grams_total(Seq::new(k, |i: int| item)) == k * item.grams,
    decreases k,
{
    let s = Seq::new(k, |i: int| item);
    if k == 0 {
    } else {
        assert(s.drop_last() =~= Seq::new((k - 1) as nat, |i: int| item));
        lemma_grams_total_repeat(item, (k - 1) as nat);
        assert(k as int * item.grams == (k - 1) as int * item.grams + item.grams)
            by (nonlinear_arith);
    }
}

/// An integer clamped into the gram range.
pub open spec fn spec_clamp_grams(v: int) -> Grams {
    if v > Grams::MAX {
        Grams::MAX
    } else if v < 0 {
        0
    } else {
        v as Grams
    }
}

/// Summarises the shelf: its penalty snapshot, its item count, and the
/// total grams held (saturating at the gram range).
pub fn stats(shelf: &Shelf) -> (r: Stats)
    ensures
        r.snapshot == shelf.perf,
        r.total_items == shelf.shelf@.len(),
        r.total_grams == spec_clamp_grams(grams_total(shelf.shelf@)),
{
    let mut total_grams: Grams = 0;
    let mut i: usize = 0;
    while i < shelf.shelf.len()
        invariant
            i <= shelf.shelf@.len(),
            total_grams == spec_clamp_grams(grams_total(shelf.shelf@.subrange(0, i as int))),
        decreases shelf.shelf@.len() - i,
    {
        let ghost pre = shelf.shelf@.subrange(0, i as int);
        let ghost post = shelf.shelf@.subrange(0, i + 1 as int);
        proof {
            assert(post.drop_last() =~= pre);
            assert(grams_total(post) == grams_total(pre) + shelf.shelf@[i as int].grams as int);
            lemma_grams_total_nonneg(pre);
        }
        total_grams = total_grams.saturating_add(shelf.shelf[i].grams);
        proof {
            assert(total_grams == spec_clamp_grams(grams_total(post)));
        }
        i = i + 1;
    }
    proof {
        assert(shelf.shelf@.subrange(0, shelf.shelf@.len() as int) =~= shelf.shelf@);
    }
    Stats { snapshot: shelf.perf, total_items: shelf.shelf.len(), total_grams }
}

/// The transient events the engine consumes, one at a time.
#[derive(Clone, Debug)]
pub enum Event {
    /// A consumption of this many grams of the keyed food.
    Ate(Key, Grams),
    /// A purchase of the item, with a minimum-purchase-servings bound.
    Bought(Food, Servings),
    /// A purchase pass over the whole catalog, gated by fullness.
    BuyAllBasedOnFullness(BuyAllBasedOnFullnessParams),
}

impl Event {
    /// A uniformly random event: a purchase of a random pack, or the
    /// consumption of the grams such a pack holds.
    pub fn from_rng(food_types: &Vec<Type>, rng: &mut Xs) -> (r: Event)
        requires
            crate::food::food_types_wf(food_types@),
        ensures
            r matches Event::Bought(f, m) ==> spec_fresh_pack_of_catalog(f, food_types@) && m
                == 0,
            r matches Event::Ate(k, g) ==> exists|i: int|
                0 <= i < food_types@.len() && #[trigger] food_types@[i].key@ == k@
                    && food_types@[i].options@.contains(PackOption { grams: g }),
            r is Bought <==> crate::xs::spec_xorshift_word(old(rng)[3], old(rng)[0]) as int % 2
                == 1,
            r is Ate || r is Bought,
    {
        match xs::range(rng, 0, 2) {
            1 => Event::Bought(Food::from_rng(food_types, rng), 0),
            _ => {
                let food = Food::from_rng(food_types, rng);
                proof {
                    assert(food.pack == (PackOption { grams: food.pack.grams }));
                }
                Event::Ate(food.key, food.grams)
            },
        }
    }
}

/// One entry of the expanded event sequence: day boundaries interleaved
/// with events.
#[derive(Clone, Debug)]
pub enum EventEntry {
    InitialDayMarker,
    DayMarker,
    Event(Event),
}

/// Whether some catalog entry carries the key.
pub open spec fn spec_has_type_key(ts: Seq<Type>, key: Seq<char>) -> bool {
    exists|i: int| 0 <= i < ts.len() && #[trigger] ts[i].key@ == key
}

/// The shelf-item invariant: no item holds more grams than the pack it
/// was bought as. (That it holds no fewer than zero grams is already a
/// property of the gram type.)
pub open spec fn shelf_items_wf(s: Seq<Food>) -> bool {
    forall|i: int| 0 <= i < s.len() ==> #[trigger] s[i].grams <= s[i].pack.grams
}

/// Whether some shelf item carries the key.
pub open spec fn spec_has_key(shelf: Seq<Food>, key: Seq<char>) -> bool {
    exists|i: int| 0 <= i < shelf.len() && #[trigger] shelf[i].key@ == key
}

/// The index of the first shelf item carrying the key, if any.
pub fn position_of_key(shelf: &Vec<Food>, key: &Key) -> (r: Option<usize>)
    ensures
        r matches Some(i) ==> i < shelf@.len() && shelf@[i as int].key@ == key@ && (forall|j: int|
            0 <= j < i ==> #[trigger] shelf@[j].key@ != key@),
        r is None ==> !spec_has_key(shelf@, key@),
{
    let mut i: usize = 0;
    while i < shelf.len()
        invariant
            i <= shelf@.len(),
            forall|j: int| 0 <= j < i ==> #[trigger] shelf@[j].key@ != key@,
        decreases shelf@.len() - i,
    {
        if shelf[i].key == *key {
            return Some(i);
        }
        i = i + 1;
    }
    None
}

/// The serving size the catalog gives the key: the last matching entry's
/// serving, or the default serving when no entry matches.
pub open spec fn spec_serving_for(ts: Seq<Type>, key: Seq<char>) -> Grams
    decreases ts.len(),
{
    if ts.len() == 0 {
        100
    } else if ts.last().key@ == key {
        ts.last().serving
    } else {
        spec_serving_for(ts.drop_last(), key)
    }
}

/// A well-formed catalog always yields a positive serving size.
pub proof fn lemma_serving_for_positive(ts: Seq<Type>, key: Seq<char>)
    requires
        forall|i: int| 0 <= i < ts.len() ==> crate::food::type_wf(#[trigger] ts[i]),
    ensures
        spec_serving_for(ts, key) >= 1,
    decreases ts.len(),
{
    if ts.len() > 0 {
        if ts.last().key@ == key {
            assert(crate::food::type_wf(ts[ts.len() - 1]));
        } else {
            lemma_serving_for_positive(ts.drop_last(), key);
        }
    }
}

/// Looks the key's serving size up in the catalog.
pub fn serving_for(food_types: &Vec<Type>, key: &Key) -> (r: Grams)
    ensures
        r == spec_serving_for(food_types@, key@),
{
    let mut serving: Grams = crate::food::default_serving();
    let mut i: usize = 0;
    while i < food_types.len()
        invariant
            i <= food_types@.len(),
            serving == spec_serving_for(food_types@.subrange(0, i as int), key@),
        decreases food_types@.len() - i,
    {
        let ghost pre = food_types@.subrange(0, i as int);
        let ghost post = food_types@.subrange(0, i + 1 as int);
        proof {
            assert(post.drop_last() =~= pre);
            assert(post.last() == food_types@[i as int]);
        }
        if food_types[i].key == *key {
            serving = food_types[i].serving;
        }
        i = i + 1;
    }
    proof {
        assert(food_types@.subrange(0, food_types@.len() as int) =~= food_types@);
    }
    serving
}

/// How many servings one pack yields: the integer quotient, with a floor
/// of one so a pack always yields at least one serving.
pub open spec fn spec_servings_per_pack(pack_grams: int, serving: int) -> int {
    if pack_grams / serving < 1 {
        1
    } else {
        pack_grams / serving
    }
}

/// Computes a pack's serving yield.
pub fn servings_per_pack(pack_grams: Grams, serving: Grams) -> (r: Servings)
    requires
        serving >= 1,
    ensures
        r == spec_servings_per_pack(pack_grams as int, serving as int),
        1 <= r,
{
    let q = pack_grams / serving;
    if q < 1 {
        1
    } else {
        q
    }
}

/// How many packs the purchase routine buys: packs are added until their
/// cumulative serving yield reaches the minimum, and at least one pack is
/// always bought.
pub open spec fn spec_packs_bought(min: int, spp: int) -> int
    recommends
        spp >= 1,
    decreases min,
{
    if spp < 1 {
        1
    } else if min <= spp {
        1
    } else {
        1 + spec_packs_bought(min - spp, spp)
    }
}

/// Puts the purchased item on the shelf, repeating the purchase until the
/// minimum-purchase-servings requirement is met.
/// The number of packs a purchase of the item adds to the shelf.
pub open spec fn spec_purchase_packs(ts: Seq<Type>, food: Food, min: int) -> int {
    spec_packs_bought(
        min,
        spec_servings_per_pack(food.pack.grams as int, spec_serving_for(ts, food.key@) as int),
    )
}

/// Puts the purchased item on the shelf, repeating the purchase until the
/// minimum-purchase-servings requirement is met. At least one pack is
/// always bought; the penalty counters never change.
pub fn buy(
    study: &mut Shelf,
    tracking_steps: &mut Vec<TrackingStep>,
    food_types: &Vec<Type>,
    food: Food,
    minimum_purchase_servings: Servings,
)
    requires
        forall|i: int|
            0 <= i < food_types@.len() ==> crate::food::type_wf(#[trigger] food_types@[i]),
    ensures
        final(study).perf == old(study).perf,
        final(study).shelf@ == old(study).shelf@ + Seq::new(
            spec_purchase_packs(food_types@, food, minimum_purchase_servings as int) as nat,
            |i: int| food,
        ),
        final(tracking_steps)@ == old(tracking_steps)@ + Seq::new(
            spec_purchase_packs(food_types@, food, minimum_purchase_servings as int) as nat,
            |i: int| TrackingStep::Bought(food.grams, food.key),
        ),
        spec_purchase_packs(food_types@, food, minimum_purchase_servings as int) >= 1,
{
    let serving: Grams = serving_for(food_types, &food.key);
    proof {
        lemma_serving_for_positive(food_types@, food.key@);
    }

    let spp: Servings = servings_per_pack(food.pack.grams, serving);

    let min = minimum_purchase_servings;
    let mut servings_bought: u32 = 0;
    let ghost mut n: int = 0;
    let ghost k = spec_packs_bought(min as int, spp as int);
    proof {
        lemma_packs_bought_positive(min as int, spp as int);
    }

    loop
        invariant_except_break
            n == 0 || servings_bought < min,
            k == n + spec_packs_bought(min - servings_bought, spp as int),
        invariant
            1 <= spp <= u16::MAX,
            min <= u16::MAX,
            servings_bought == n * spp,
            n >= 0,
            study.shelf@ == old(study).shelf@ + Seq::new(n as nat, |i: int| food),
            study.perf == old(study).perf,
            tracking_steps@ == old(tracking_steps)@ + Seq::new(
                n as nat,
                |i: int| TrackingStep::Bought(food.grams, food.key),
            ),
        ensures
            n == k,
        decreases min - servings_bought,
    {
        tracking_steps.push(TrackingStep::Bought(food.grams, food.key.clone()));
        study.shelf.push(clone_food(&food));
        proof {
            assert(Seq::new((n + 1) as nat, |i: int| food) =~= Seq::new(n as nat, |i: int| food)
                .push(food));
            assert(Seq::new(
                (n + 1) as nat,
                |i: int| TrackingStep::Bought(food.grams, food.key),
            ) =~= Seq::new(n as nat, |i: int| TrackingStep::Bought(food.grams, food.key)).push(
                TrackingStep::Bought(food.grams, food.key),
            ));
            let ghost sb_old = servings_bought as int;
            assert((n + 1) * spp == n * spp + spp) by (nonlinear_arith);
            n = n + 1;
        }

        servings_bought = servings_bought + spp as u32;

        if !(servings_bought < min as u32) {
            proof {
                assert(min - (servings_bought - spp) <= spp);
                assert(spec_packs_bought(min - (servings_bought - spp), spp as int) == 1);
            }
            break ;
        }
        proof {
            assert(spec_packs_bought(min - (servings_bought - spp), spp as int) == 1
                + spec_packs_bought(min - servings_bought, spp as int));
        }
    }
}

/// At least one pack is always bought.
pub proof fn lemma_packs_bought_positive(min: int, spp: int)
    requires
        spp >= 1,
    ensures
        spec_packs_bought(min, spp) >= 1,
    decreases min,
{
    if min > spp {
        lemma_packs_bought_positive(min - spp, spp);
    }
}

/// The serving size of the first catalog entry carrying the key, scanning
/// from position `i`.
pub open spec fn spec_first_serving_from(ts: Seq<Type>, key: Seq<char>, i: int) -> Option<Grams>
    decreases ts.len() - i,
{
    if i < 0 || i >= ts.len() {
        None
    } else if ts[i].key@ == key {
        Some(ts[i].serving)
    } else {
        spec_first_serving_from(ts, key, i + 1)
    }
}

/// The serving size of the first catalog entry carrying the key, if any.
pub open spec fn spec_first_serving(ts: Seq<Type>, key: Seq<char>) -> Option<Grams> {
    spec_first_serving_from(ts, key, 0)
}

/// Finds the serving size of the first catalog entry carrying the key.
pub fn first_type_serving(food_types: &Vec<Type>, key: &Key) -> (r: Option<Grams>)
    ensures
        r == spec_first_serving(food_types@, key@),
{
    let mut i: usize = 0;
    while i < food_types.len()
        invariant
            i <= food_types@.len(),
            spec_first_serving(food_types@, key@) == spec_first_serving_from(
                food_types@,
                key@,
                i as int,
            ),
        decreases food_types@.len() - i,
    {
        if food_types[i].key == *key {
            return Some(food_types[i].serving);
        }
        i = i + 1;
    }
    None
}

/// The absolute difference.
pub open spec fn spec_abs_diff(a: int, b: int) -> int {
    if a >= b {
        a - b
    } else {
        b - a
    }
}

/// How far a shelf item's serving size is from the target serving size, if
/// the item is a valid substitute: a different food key that the catalog
/// knows. The serving compared is that of the first catalog entry carrying
/// the item's key.
pub open spec fn spec_substitute_diff(
    ts: Seq<Type>,
    target: int,
    key: Seq<char>,
    f: Food,
) -> Option<int> {
    if f.key@ == key {
        None
    } else {
        match spec_first_serving(ts, f.key@) {
            Option::None => None,
            Option::Some(s) => Some(spec_abs_diff(target, s as int)),
        }
    }
}

/// What `best_substitute_index` returns: slot 0 when the depleted key is
/// unknown to the catalog or no substitute exists; otherwise the first
/// shelf index whose substitute distance is minimal.
pub open spec fn spec_is_best_substitute(
    shelf: Seq<Food>,
    ts: Seq<Type>,
    key: Seq<char>,
    r: int,
) -> bool {
    match spec_first_serving(ts, key) {
        Option::None => r == 0,
        Option::Some(target) => {
            if exists|i: int|
                0 <= i < shelf.len() && spec_substitute_diff(ts, target as int, key, #[trigger] shelf[i])
                    is Some {
                &&& 0 <= r < shelf.len()
                &&& spec_substitute_diff(ts, target as int, key, shelf[r]) is Some
                &&& forall|i: int|
                    0 <= i < shelf.len() && spec_substitute_diff(ts, target as int, key, #[trigger] shelf[i])
                        is Some ==> spec_substitute_diff(ts, target as int, key, shelf[r])->0
                        <= spec_substitute_diff(ts, target as int, key, shelf[i])->0
                &&& forall|i: int|
                    0 <= i < r && spec_substitute_diff(ts, target as int, key, #[trigger] shelf[i])
                        is Some ==> spec_substitute_diff(ts, target as int, key, shelf[r])->0
                        < spec_substitute_diff(ts, target as int, key, shelf[i])->0
            } else {
                r == 0
            }
        },
    }
}

/// Picks the shelf item whose serving size is closest to the depleted
/// food's serving size (ties broken by first found), or slot 0 when the
/// depleted key is unknown or nothing qualifies.
pub fn best_substitute_index(study: &Shelf, food_types: &Vec<Type>, key: &Key) -> (r: usize)
    requires
        forall|i: int|
            0 <= i < food_types@.len() ==> crate::food::type_wf(#[trigger] food_types@[i]),
    ensures
        spec_is_best_substitute(study.shelf@, food_types@, key@, r as int),
        study.shelf@.len() == 0 ==> r == 0,
        study.shelf@.len() > 0 ==> r < study.shelf@.len(),
{
    let target_serving_size: Grams = match first_type_serving(food_types, key) {
        Option::Some(s) => s,
        Option::None => {
            return 0;
        },
    };

    let ghost ts = food_types@;
    let ghost shelf = study.shelf@;

    let mut best_index: usize = 0;
    let mut best_difference: Grams = Grams::MAX;

    let mut i: usize = 0;
    while i < study.shelf.len()
        invariant
            i <= shelf.len(),
            shelf == study.shelf@,
            ts == food_types@,
            spec_first_serving(ts, key@) == Some(target_serving_size),
            forall|j: int|
                0 <= j < ts.len() ==> crate::food::type_wf(#[trigger] ts[j]),
            best_difference == Grams::MAX ==> best_index == 0 && (forall|j: int|
                0 <= j < i ==> spec_substitute_diff(ts, target_serving_size as int, key@, #[trigger] shelf[j])
                    is None),
            best_difference < Grams::MAX ==> {
                &&& best_index < i
                &&& spec_substitute_diff(ts, target_serving_size as int, key@, shelf[best_index as int])
                    == Some(best_difference as int)
                &&& forall|j: int|
                    0 <= j < i && spec_substitute_diff(ts, target_serving_size as int, key@, #[trigger] shelf[j])
                        is Some ==> best_difference as int <= spec_substitute_diff(
                        ts,
                        target_serving_size as int,
                        key@,
                        shelf[j],
                    )->0
                &&& forall|j: int|
                    0 <= j < best_index && spec_substitute_diff(ts, target_serving_size as int, key@, #[trigger] shelf[j])
                        is Some ==> (best_difference as int) < spec_substitute_diff(
                        ts,
                        target_serving_size as int,
                        key@,
                        shelf[j],
                    )->0
            },
        decreases shelf.len() - i,
    {
        let candidate_serving: Option<Grams> = if study.shelf[i].key == *key {
            None
        } else {
            first_type_serving(food_types, &study.shelf[i].key)
        };

        match candidate_serving {
            Option::Some(serving_size) => {
                proof {
                    assert(spec_substitute_diff(ts, target_serving_size as int, key@, shelf[i as int])
                        == Some(spec_abs_diff(target_serving_size as int, serving_size as int)));
                    assert(serving_size >= 1) by {
                        lemma_first_serving_wf(ts, shelf[i as int].key@);
                    }
                }
                let difference: Grams = if target_serving_size >= serving_size {
                    target_serving_size - serving_size
                } else {
                    serving_size - target_serving_size
                };
                proof {
                    lemma_first_serving_wf(ts, key@);
                    assert(difference < Grams::MAX);
                }
                if difference < best_difference {
                    best_difference = difference;
                    best_index = i;
                }
            },
            Option::None => {
                proof {
                    assert(spec_substitute_diff(ts, target_serving_size as int, key@, shelf[i as int])
                        is None);
                }
            },
        }
        i = i + 1;
    }

    best_index
}

/// A serving size found in a well-formed catalog is positive and below the
/// gram maximum.
pub proof fn lemma_first_serving_wf(ts: Seq<Type>, key: Seq<char>)
    requires
        forall|i: int| 0 <= i < ts.len() ==> crate::food::type_wf(#[trigger] ts[i]),
        spec_first_serving(ts, key) is Some,
    ensures
        1 <= spec_first_serving(ts, key)->0,
{
    lemma_first_serving_from_wf(ts, key, 0);
}

proof fn lemma_first_serving_from_wf(ts: Seq<Type>, key: Seq<char>, i: int)
    requires
        forall|j: int| 0 <= j < ts.len() ==> crate::food::type_wf(#[trigger] ts[j]),
        spec_first_serving_from(ts, key, i) is Some,
    ensures
        1 <= spec_first_serving_from(ts, key, i)->0,
    decreases ts.len() - i,
{
    if 0 <= i < ts.len() {
        if ts[i].key@ == key {
        } else {
            lemma_first_serving_from_wf(ts, key, i + 1);
        }
    }
}

/// The steps a call appended to the trace.
pub open spec fn appended_steps(
    old_steps: Seq<TrackingStep>,
    new_steps: Seq<TrackingStep>,
) -> Seq<TrackingStep> {
    new_steps.skip(old_steps.len() as int)
}

/// The shape of the trace one consumption chain appends: at least one
/// step, every step before the last eats from one item, and the last
/// either eats or records a starvation.
pub open spec fn spec_consumption_trace(ap: Seq<TrackingStep>) -> bool {
    &&& ap.len() >= 1
    &&& forall|i: int| 0 <= i < ap.len() - 1 ==> (#[trigger] ap[i]) is Ate
    &&& (ap.last() is Ate || ap.last() is Starved)
}

/// The shelf item after eating `g` grams of it.
pub open spec fn spec_eat_from(item: Food, g: int) -> Food {
    Food { key: item.key, pack: item.pack, grams: (item.grams - g) as Grams }
}

/// Serves `grams` starting from the shelf slot `index`, spilling over to
/// further items when one runs dry: first to another item of the same key,
/// then to the best substitute; a hop that finds no same-key item charges
/// the unmet remainder to the out counter, and finding no slot at all
/// charges one starvation and stops.
///
/// The recorded trace conserves grams: eaten plus starved equals the
/// request. A request fully served from the starting slot only decrements
/// that slot.
pub fn eat_at(
    study: &mut Shelf,
    tracking_steps: &mut Vec<TrackingStep>,
    index: usize,
    grams: Grams,
    food_types: &Vec<Type>,
)
    requires
        forall|i: int|
            0 <= i < food_types@.len() ==> crate::food::type_wf(#[trigger] food_types@[i]),
    ensures
        final(tracking_steps)@.len() > old(tracking_steps)@.len(),
        final(tracking_steps)@.subrange(0, old(tracking_steps)@.len() as int) == old(tracking_steps)@,
        eaten_total(appended_steps(old(tracking_steps)@, final(tracking_steps)@))
            + starved_total(appended_steps(old(tracking_steps)@, final(tracking_steps)@))
            == grams,
        final(study).perf.out_count == spec_clamp_grams(
            old(study).perf.out_count + out_total(
                appended_steps(old(tracking_steps)@, final(tracking_steps)@),
            ),
        ),
        final(study).perf.starved_count == spec_clamp_grams(
            old(study).perf.starved_count + starved_steps(
                appended_steps(old(tracking_steps)@, final(tracking_steps)@),
            ),
        ),
        starved_steps(appended_steps(old(tracking_steps)@, final(tracking_steps)@)) <= 1,
        final(study).shelf@.len() <= old(study).shelf@.len(),
        final(study).shelf@.len() == old(study).shelf@.len() + 1 - appended_steps(
            old(tracking_steps)@,
            final(tracking_steps)@,
        ).len(),
        spec_consumption_trace(appended_steps(old(tracking_steps)@, final(tracking_steps)@)),
        grams_total(final(study).shelf@) == grams_total(old(study).shelf@) - eaten_total(
            appended_steps(old(tracking_steps)@, final(tracking_steps)@),
        ),
        shelf_items_wf(old(study).shelf@) ==> shelf_items_wf(final(study).shelf@),
        (index < old(study).shelf@.len() && grams <= old(study).shelf@[index as int].grams)
            ==> final(study).shelf@ == old(study).shelf@.update(
            index as int,
            spec_eat_from(old(study).shelf@[index as int], grams as int),
        ) && final(study).perf == old(study).perf && appended_steps(
            old(tracking_steps)@,
            final(tracking_steps)@,
        ) =~= seq![
            (TrackingStep::Ate {
                eaten: grams,
                key: old(study).shelf@[index as int].key,
                out_count: 0,
            }),
        ],
{
    let ghost init_steps = tracking_steps@;
    let ghost init_shelf = study.shelf@;
    let ghost init_perf = study.perf;

    let mut cur_index = index;
    let mut need = grams;

    loop
        invariant
            forall|i: int|
                0 <= i < food_types@.len() ==> crate::food::type_wf(#[trigger] food_types@[i]),
            init_steps == old(tracking_steps)@,
            init_shelf == old(study).shelf@,
            init_perf == old(study).perf,
            tracking_steps@.len() >= init_steps.len(),
            tracking_steps@.subrange(0, init_steps.len() as int) == init_steps,
            eaten_total(appended_steps(init_steps, tracking_steps@)) + need == grams,
            starved_total(appended_steps(init_steps, tracking_steps@)) == 0,
            starved_steps(appended_steps(init_steps, tracking_steps@)) == 0,
            study.perf.out_count == spec_clamp_grams(
                init_perf.out_count + out_total(appended_steps(init_steps, tracking_steps@)),
            ),
            study.perf.starved_count == init_perf.starved_count,
            study.shelf@.len() <= init_shelf.len(),
            study.shelf@.len() == init_shelf.len() - appended_steps(
                init_steps,
                tracking_steps@,
            ).len(),
            forall|i: int|
                0 <= i < appended_steps(init_steps, tracking_steps@).len()
                    ==> (#[trigger] appended_steps(init_steps, tracking_steps@)[i]) is Ate,
            grams_total(study.shelf@) == grams_total(init_shelf) - eaten_total(
                appended_steps(init_steps, tracking_steps@),
            ),
            shelf_items_wf(init_shelf) ==> shelf_items_wf(study.shelf@),
            (index < init_shelf.len() && grams <= init_shelf[index as int].grams) ==> (
            study.shelf@ == init_shelf && study.perf == init_perf && tracking_steps@ == init_steps
                && cur_index == index && need == grams),
        decreases study.shelf@.len(),
    {
        let ghost ap = appended_steps(init_steps, tracking_steps@);
        if cur_index >= study.shelf.len() {
            study.perf.starved_count = study.perf.starved_count.saturating_add(1);
            tracking_steps.push(TrackingStep::Starved(need));
            proof {
                lemma_totals_push(ap, TrackingStep::Starved(need));
                assert(appended_steps(init_steps, tracking_steps@) =~= ap.push(
                    TrackingStep::Starved(need),
                ));
                assert(tracking_steps@.subrange(0, init_steps.len() as int) =~= init_steps);
                lemma_out_total_nonneg(ap);
            }
            return ;
        }
        let food_grams = study.shelf[cur_index].grams;
        let ghost pre_shelf = study.shelf@;
        if need <= food_grams {
            let step_key = study.shelf[cur_index].key.clone();
            let item = &mut study.shelf[cur_index];
            item.grams = food_grams - need;
            let ghost shelf_now = study.shelf@;
            proof {
                lemma_grams_total_update(pre_shelf, cur_index as int, shelf_now[cur_index as int]);
            }
            tracking_steps.push(
                TrackingStep::Ate { eaten: need, key: step_key, out_count: 0 },
            );
            proof {
                lemma_totals_push(ap, tracking_steps@.last());
                assert(appended_steps(init_steps, tracking_steps@) =~= ap.push(
                    tracking_steps@.last(),
                ));
                assert(tracking_steps@.subrange(0, init_steps.len() as int) =~= init_steps);
                lemma_out_total_nonneg(ap);
                if index < init_shelf.len() && grams <= init_shelf[index as int].grams {
                    assert(shelf_now =~= init_shelf.update(
                        index as int,
                        spec_eat_from(init_shelf[index as int], grams as int),
                    ));
                    assert(appended_steps(init_steps, tracking_steps@) =~= seq![
                        (TrackingStep::Ate {
                            eaten: grams,
                            key: init_shelf[index as int].key,
                            out_count: 0,
                        }),
                    ]);
                }
            }
            return ;
        }

        let remaining = need - food_grams;
        let food = study.shelf.swap_remove(cur_index);
        proof {
            let u = pre_shelf.update(cur_index as int, pre_shelf.last());
            lemma_grams_total_update(pre_shelf, cur_index as int, pre_shelf.last());
            assert(u.last() == pre_shelf.last());
            assert(grams_total(u) == grams_total(u.drop_last()) + u.last().grams as int);
            assert(grams_total(study.shelf@) == grams_total(pre_shelf) - food.grams as int);
        }

        match position_of_key(&study.shelf, &food.key) {
            Option::Some(new_index) => {
                tracking_steps.push(
                    TrackingStep::Ate { eaten: food.grams, key: food.key, out_count: 0 },
                );
                proof {
                    lemma_totals_push(ap, tracking_steps@.last());
                    assert(appended_steps(init_steps, tracking_steps@) =~= ap.push(
                        tracking_steps@.last(),
                    ));
                    assert(tracking_steps@.subrange(0, init_steps.len() as int) =~= init_steps);
                }
                cur_index = new_index;
                need = remaining;
            },
            Option::None => {
                tracking_steps.push(
                    TrackingStep::Ate {
                        eaten: food.grams,
                        key: food.key.clone(),
                        out_count: remaining,
                    },
                );
                study.perf.out_count = study.perf.out_count.saturating_add(remaining);
                let substitute_index = best_substitute_index(study, food_types, &food.key);
                proof {
                    lemma_totals_push(ap, tracking_steps@.last());
                    assert(appended_steps(init_steps, tracking_steps@) =~= ap.push(
                        tracking_steps@.last(),
                    ));
                    assert(tracking_steps@.subrange(0, init_steps.len() as int) =~= init_steps);
                    lemma_out_total_nonneg(ap);
                }
                cur_index = substitute_index;
                need = remaining;
            },
        }
    }
}

/// Out totals never go negative.
pub proof fn lemma_out_total_nonneg(steps: Seq<TrackingStep>)
    ensures
        out_total(steps) >= 0,
        eaten_total(steps) >= 0,
        starved_total(steps) >= 0,
        starved_steps(steps) >= 0,
    decreases steps.len(),
{
    if steps.len() > 0 {
        lemma_out_total_nonneg(steps.drop_last());
    }
}

/// The actual shelf index of the first item carrying the key when the
/// shelf is walked from rotation position `i` with the given offset.
pub open spec fn spec_rot_first(shelf: Seq<Food>, key: Seq<char>, offset: int, i: int) -> Option<
    int,
>
    decreases shelf.len() - i,
{
    if i < 0 || i >= shelf.len() || shelf.len() == 0 {
        None
    } else if shelf[(i + offset) % (shelf.len() as int)].key@ == key {
        Some((i + offset) % (shelf.len() as int))
    } else {
        spec_rot_first(shelf, key, offset, i + 1)
    }
}

/// Finds the first shelf item carrying the key, walking the shelf from the
/// given wrapping offset.
pub fn first_rotated_match(shelf: &Vec<Food>, key: &Key, offset: usize) -> (r: Option<usize>)
    ensures
        match r {
            Option::Some(idx) => idx < shelf@.len() && spec_rot_first(shelf@, key@, offset as int, 0)
                == Some(idx as int),
            Option::None => spec_rot_first(shelf@, key@, offset as int, 0) is None,
        },
{
    let len = shelf.len();
    if len == 0 {
        return None;
    }
    let rot = offset % len;
    let mut i: usize = 0;
    while i < len
        invariant
            0 < len == shelf@.len(),
            i <= len,
            rot == offset as int % len as int,
            spec_rot_first(shelf@, key@, offset as int, 0) == spec_rot_first(
                shelf@,
                key@,
                offset as int,
                i as int,
            ),
        decreases len - i,
    {
        let idx = if i >= len - rot {
            i - (len - rot)
        } else {
            i + rot
        };
        proof {
            assert(idx as int == (i as int + offset as int) % (shelf@.len() as int)) by {
                let li = len as int;
                let ii = i as int;
                let oi = offset as int;
                let ri = rot as int;
                vstd::arithmetic::div_mod::lemma_add_mod_noop_right(ii, oi, li);
                // (ii + oi % li) % li == (ii + oi) % li, i.e. (ii + ri) % li
                if i + rot < len {
                    vstd::arithmetic::div_mod::lemma_small_mod((i + rot) as nat, len as nat);
                } else {
                    vstd::arithmetic::div_mod::lemma_mod_sub_multiples_vanish(ii + ri, li);
                    // (-li + ii + ri) % li == (ii + ri) % li
                    vstd::arithmetic::div_mod::lemma_small_mod(
                        (i + rot - len) as nat,
                        len as nat,
                    );
                    assert((ii + ri - li) % li == (-li + (ii + ri)) % li);
                }
            }
        }
        if shelf[idx].key == *key {
            return Some(idx);
        }
        i = i + 1;
    }
    None
}

/// Whether the first matching item's fullness, measured against a
/// purchase-adjusted denominator, falls below the threshold; an absent
/// item counts as fullness zero.
pub open spec fn spec_fullness_below(
    shelf: Seq<Food>,
    t: Type,
    offset: int,
    min: int,
    threshold: int,
) -> bool {
    match spec_rot_first(shelf, t.key@, offset, 0) {
        Option::None => 0 < threshold,
        Option::Some(idx) => {
            let item = shelf[idx];
            let spp = spec_servings_per_pack(item.pack.grams as int, t.serving as int);
            let denom = item.pack.grams as int * (min / spp + 1);
            item.grams as int * 65536 < threshold * denom
        },
    }
}

/// Decides the fullness gate for one catalog entry: the first matching
/// shelf item's grams, relative to its pack size times the pack count the
/// minimum-purchase-servings bound implies, compared against the
/// fixed-point threshold. The comparison is exact rational arithmetic.
pub fn fullness_below_threshold(
    study: &Shelf,
    type_: &Type,
    offset: usize,
    minimum_purchase_servings: Servings,
    threshold: i64,
) -> (r: bool)
    requires
        crate::food::type_wf(*type_),
    ensures
        r == spec_fullness_below(
            study.shelf@,
            *type_,
            offset as int,
            minimum_purchase_servings as int,
            threshold as int,
        ),
{
    match first_rotated_match(&study.shelf, &type_.key, offset) {
        Option::None => 0 < threshold,
        Option::Some(idx) => {
            let item_grams = study.shelf[idx].grams;
            let pack_grams = study.shelf[idx].pack.grams;
            let spp = servings_per_pack(pack_grams, type_.serving);
            let pack_count: u32 = (minimum_purchase_servings / spp) as u32 + 1;
            proof {
                assert(minimum_purchase_servings as int / spp as int <= 65535)
                    by (nonlinear_arith)
                    requires
                        1 <= spp as int,
                        0 <= minimum_purchase_servings as int <= 65535,
                ;
                assert(pack_grams as int * pack_count as int <= 65535 * 65536)
                    by (nonlinear_arith)
                    requires
                        0 <= pack_grams as int <= 65535,
                        0 <= pack_count as int <= 65536,
                ;
                assert(pack_grams as int * pack_count as int >= 0) by (nonlinear_arith)
                    requires
                        0 <= pack_grams as int,
                        0 <= pack_count as int,
                ;
            }
            let denom: i64 = pack_grams as i64 * pack_count as i64;
            let lhs: i128 = item_grams as i128 * 65536;
            proof {
                crate::fixed::lemma_wide_prod_bounds(threshold as int, denom as int);
            }
            let rhs: i128 = threshold as i128 * denom as i128;
            lhs < rhs
        },
    }
}

/// Walks the whole catalog once: for every entry whose first matching
/// shelf item is below the fullness threshold, while the purchase budget
/// lasts, buys one random pack of that entry (repeated to meet the
/// minimum-purchase-servings bound). Never touches the penalty counters,
/// never changes existing shelf items, and appends only fresh packs of
/// catalog entries.
pub fn buy_all_based_on_fullness(
    rng: &mut Xs,
    study: &mut Shelf,
    tracking_steps: &mut Vec<TrackingStep>,
    food_types: &Vec<Type>,
    params: BuyAllBasedOnFullnessParams,
)
    requires
        crate::food::food_types_wf(food_types@),
    ensures
        final(study).perf == old(study).perf,
        final(study).shelf@.len() >= old(study).shelf@.len(),
        final(study).shelf@.subrange(0, old(study).shelf@.len() as int) == old(study).shelf@,
        forall|i: int|
            old(study).shelf@.len() <= i < final(study).shelf@.len()
                ==> spec_fresh_pack_of_catalog(#[trigger] final(study).shelf@[i], food_types@),
        final(tracking_steps)@.len() >= old(tracking_steps)@.len(),
        final(tracking_steps)@.subrange(0, old(tracking_steps)@.len() as int) == old(tracking_steps)@,
        forall|i: int|
            old(tracking_steps)@.len() <= i < final(tracking_steps)@.len() ==> #[trigger] final(tracking_steps)@[i] is Bought,
        params.max_count == 0 ==> final(study).shelf@ == old(study).shelf@,
        (forall|t: int|
            0 <= t < food_types@.len() ==> !spec_fullness_below(
                old(study).shelf@,
                #[trigger] food_types@[t],
                params.offset as int,
                params.minimum_purchase_servings as int,
                params.fullness_threshold as int,
            )) ==> final(study).shelf@ == old(study).shelf@,
        (params.max_count >= 1 && food_types@.len() >= 1 && spec_fullness_below(
            old(study).shelf@,
            food_types@[0],
            params.offset as int,
            params.minimum_purchase_servings as int,
            params.fullness_threshold as int,
        )) ==> final(study).shelf@.len() > old(study).shelf@.len(),
{
    let ghost init_shelf = study.shelf@;
    let ghost init_steps = tracking_steps@;
    let ghost init_perf = study.perf;

    let mut count: u16 = 0;
    let mut ti: usize = 0;
    while ti < food_types.len()
        invariant
            crate::food::food_types_wf(food_types@),
            ti <= food_types@.len(),
            params.max_count == 0 ==> study.shelf@ == init_shelf,
            ti == 0 ==> study.shelf@ == init_shelf,
            count as int <= ti as int,
            study.shelf@ == init_shelf || study.shelf@.len() > init_shelf.len(),
            (forall|t: int|
                0 <= t < food_types@.len() ==> !spec_fullness_below(
                    init_shelf,
                    #[trigger] food_types@[t],
                    params.offset as int,
                    params.minimum_purchase_servings as int,
                    params.fullness_threshold as int,
                )) ==> study.shelf@ == init_shelf,
            (params.max_count >= 1 && food_types@.len() >= 1 && ti >= 1 && spec_fullness_below(
                init_shelf,
                food_types@[0],
                params.offset as int,
                params.minimum_purchase_servings as int,
                params.fullness_threshold as int,
            )) ==> study.shelf@.len() > init_shelf.len(),
            init_shelf == old(study).shelf@,
            init_steps == old(tracking_steps)@,
            init_perf == old(study).perf,
            study.perf == init_perf,
            study.shelf@.len() >= init_shelf.len(),
            study.shelf@.subrange(0, init_shelf.len() as int) == init_shelf,
            forall|i: int|
                init_shelf.len() <= i < study.shelf@.len() ==> spec_fresh_pack_of_catalog(
                    #[trigger] study.shelf@[i],
                    food_types@,
                ),
            tracking_steps@.len() >= init_steps.len(),
            tracking_steps@.subrange(0, init_steps.len() as int) == init_steps,
            forall|i: int|
                init_steps.len() <= i < tracking_steps@.len() ==> #[trigger] tracking_steps@[i]
                    is Bought,
        decreases food_types@.len() - ti,
    {
        let below = fullness_below_threshold(
            study,
            &food_types[ti],
            params.offset,
            params.minimum_purchase_servings,
            params.fullness_threshold,
        );

        if below && count < params.max_count {
            let ghost pre_shelf = study.shelf@;
            let ghost pre_steps = tracking_steps@;
            let food = Food::from_rng_of_type(&food_types[ti], rng);
            buy(study, tracking_steps, food_types, food, params.minimum_purchase_servings);
            count = count + 1;
            proof {
                assert(study.shelf@.subrange(0, init_shelf.len() as int) =~= init_shelf);
                assert(tracking_steps@.subrange(0, init_steps.len() as int) =~= init_steps);
                assert forall|i: int|
                    init_shelf.len() <= i < study.shelf@.len() implies spec_fresh_pack_of_catalog(
                    #[trigger] study.shelf@[i],
                    food_types@,
                ) by {
                    if i >= pre_shelf.len() {
                        assert(study.shelf@[i] == food);
                        assert(spec_fresh_pack_of(food, food_types@[ti as int]));
                    }
                }
            }
        }
        ti = ti + 1;
    }
}

/// Exactly one shelf index is the first to carry the key.
pub open spec fn spec_is_first_key_match(shelf: Seq<Food>, key: Seq<char>, i: int) -> bool {
    &&& 0 <= i < shelf.len()
    &&& shelf[i].key@ == key
    &&& forall|j: int| 0 <= j < i ==> #[trigger] shelf[j].key@ != key
}

/// Totals distribute over concatenation.
pub proof fn lemma_totals_concat(a: Seq<TrackingStep>, b: Seq<TrackingStep>)
    ensures
        eaten_total(a + b) == eaten_total(a) + eaten_total(b),
        out_total(a + b) == out_total(a) + out_total(b),
        starved_total(a + b) == starved_total(a) + starved_total(b),
        starved_steps(a + b) == starved_steps(a) + starved_steps(b),
    decreases b.len(),
{
    if b.len() == 0 {
        assert(a + b =~= a);
    } else {
        lemma_totals_concat(a, b.drop_last());
        assert((a + b).drop_last() =~= a + b.drop_last());
        assert((a + b).last() == b.last());
    }
}

/// Applies one event to the shelf.
///
/// A consumption event conserves grams: the appended trace's eaten plus
/// starved grams equal the request, the out counter grows by exactly the
/// trace's charged remainders (saturating), and a request fully served by
/// the first item of its key only decrements that item. A purchase event
/// appends the bought packs and changes nothing else. A fullness pass
/// appends fresh packs of catalog entries and never touches the counters.
pub fn simulate(
    rng: &mut Xs,
    study: &mut Shelf,
    tracking_steps: &mut Vec<TrackingStep>,
    food_types: &Vec<Type>,
    event: Event,
)
    requires
        crate::food::food_types_wf(food_types@),
    ensures
        final(tracking_steps)@.len() >= old(tracking_steps)@.len(),
        final(tracking_steps)@.subrange(0, old(tracking_steps)@.len() as int) == old(tracking_steps)@,
        final(study).perf.out_count >= old(study).perf.out_count,
        final(study).perf.starved_count >= old(study).perf.starved_count,
        shelf_items_wf(old(study).shelf@) && (event matches Event::Bought(f, m) ==> f.grams
            <= f.pack.grams) ==> shelf_items_wf(final(study).shelf@),
        (event is Ate || event is Bought) ==> *final(rng) == *old(rng),
        event matches Event::Ate(key, grams) ==> ({
            let ap = appended_steps(old(tracking_steps)@, final(tracking_steps)@);
            &&& eaten_total(ap) + starved_total(ap) == grams
            &&& final(study).perf.out_count == spec_clamp_grams(
                old(study).perf.out_count + out_total(ap),
            )
            &&& final(study).perf.starved_count == spec_clamp_grams(
                old(study).perf.starved_count + starved_steps(ap),
            )
            &&& starved_steps(ap) <= 1
            &&& final(study).shelf@.len() <= old(study).shelf@.len()
            &&& grams_total(final(study).shelf@) == grams_total(old(study).shelf@)
                - eaten_total(ap)
            &&& (spec_has_key(old(study).shelf@, key@) ==> final(study).shelf@.len() == old(study).shelf@.len() + 1 - ap.len() && spec_consumption_trace(ap))
            &&& (!spec_has_key(old(study).shelf@, key@) ==> final(study).shelf@.len() == old(study).shelf@.len() + 2 - ap.len() && spec_consumption_trace(ap.skip(1)) && ap[0]
                == (TrackingStep::Ate { eaten: 0, key: key, out_count: grams }))
        }),
        event matches Event::Ate(key, grams) ==> (forall|i: int|
            spec_is_first_key_match(old(study).shelf@, key@, i) && grams <= old(study).shelf@[i].grams ==> final(study).shelf@ == old(study).shelf@.update(
                i,
                spec_eat_from(old(study).shelf@[i], grams as int),
            ) && final(study).perf == old(study).perf && appended_steps(
                old(tracking_steps)@,
                final(tracking_steps)@,
            ) =~= seq![
                (TrackingStep::Ate {
                    eaten: grams,
                    key: old(study).shelf@[i].key,
                    out_count: 0,
                }),
            ]),
        event matches Event::Bought(food, min) ==> ({
            &&& final(study).perf == old(study).perf
            &&& final(study).shelf@ == old(study).shelf@ + Seq::new(
                spec_purchase_packs(food_types@, food, min as int) as nat,
                |i: int| food,
            )
            &&& final(tracking_steps)@ == old(tracking_steps)@ + Seq::new(
                spec_purchase_packs(food_types@, food, min as int) as nat,
                |i: int| TrackingStep::Bought(food.grams, food.key),
            )
            &&& grams_total(final(study).shelf@) == grams_total(old(study).shelf@)
                + spec_purchase_packs(food_types@, food, min as int) * food.grams
        }),
        event matches Event::BuyAllBasedOnFullness(params) ==> ({
            &&& final(study).perf == old(study).perf
            &&& final(study).shelf@.len() >= old(study).shelf@.len()
            &&& final(study).shelf@.subrange(0, old(study).shelf@.len() as int) == old(study).shelf@
            &&& forall|i: int|
                old(study).shelf@.len() <= i < final(study).shelf@.len()
                    ==> spec_fresh_pack_of_catalog(
                    #[trigger] final(study).shelf@[i],
                    food_types@,
                )
            &&& grams_total(final(study).shelf@) >= grams_total(old(study).shelf@)
            &&& (params.max_count == 0 ==> final(study).shelf@ == old(study).shelf@)
            &&& ((forall|t: int|
                0 <= t < food_types@.len() ==> !spec_fullness_below(
                    old(study).shelf@,
                    #[trigger] food_types@[t],
                    params.offset as int,
                    params.minimum_purchase_servings as int,
                    params.fullness_threshold as int,
                )) ==> final(study).shelf@ == old(study).shelf@)
            &&& ((params.max_count >= 1 && food_types@.len() >= 1 && spec_fullness_below(
                old(study).shelf@,
                food_types@[0],
                params.offset as int,
                params.minimum_purchase_servings as int,
                params.fullness_threshold as int,
            )) ==> final(study).shelf@.len() > old(study).shelf@.len())
        }),
{
    match event {
        Event::Ate(key, grams) => {
            match position_of_key(&study.shelf, &key) {
                Option::Some(index) => {
                    proof {
                        assert forall|i: int|
                            spec_is_first_key_match(study.shelf@, key@, i) implies i
                            == index as int by {
                            if i < index as int {
                                assert(study.shelf@[i].key@ != key@);
                            }
                            if (index as int) < i {
                                assert(study.shelf@[index as int].key@ != key@);
                            }
                        }
                    }
                    eat_at(study, tracking_steps, index, grams, food_types);
                    proof {
                        lemma_out_total_nonneg(
                            appended_steps(old(tracking_steps)@, tracking_steps@),
                        );
                    }
                },
                Option::None => {
                    let ghost init_steps = tracking_steps@;
                    let ghost init_perf = study.perf;
                    tracking_steps.push(
                        TrackingStep::Ate { eaten: 0, key: key.clone(), out_count: grams },
                    );
                    study.perf.out_count = study.perf.out_count.saturating_add(grams);
                    let substitute_index = best_substitute_index(study, food_types, &key);
                    let ghost mid_steps = tracking_steps@;
                    eat_at(study, tracking_steps, substitute_index, grams, food_types);
                    proof {
                        let ap1 = appended_steps(init_steps, mid_steps);
                        let ap2 = appended_steps(mid_steps, tracking_steps@);
                        let ap = appended_steps(init_steps, tracking_steps@);
                        lemma_totals_push(init_steps, mid_steps.last());
                        assert(mid_steps =~= init_steps.push(mid_steps.last()));
                        assert(ap1 =~= seq![mid_steps.last()]);
                        assert(ap =~= ap1 + ap2);
                        lemma_totals_concat(ap1, ap2);
                        lemma_totals_push(Seq::empty(), mid_steps.last());
                        assert(seq![mid_steps.last()] =~= Seq::empty().push(mid_steps.last()));
                        assert(Seq::<TrackingStep>::empty().len() == 0);
                        lemma_out_total_nonneg(ap2);
                        assert(tracking_steps@.subrange(0, init_steps.len() as int)
                            =~= init_steps);
                    }
                },
            }
        },
        Event::Bought(food, minimum_purchase_servings) => {
            let ghost food_snapshot = food;
            let ghost min_snapshot = minimum_purchase_servings;
            buy(study, tracking_steps, food_types, food, minimum_purchase_servings);
            proof {
                let packs = spec_purchase_packs(food_types@, food_snapshot, min_snapshot as int);
                lemma_grams_total_concat(
                    old(study).shelf@,
                    Seq::new(packs as nat, |i: int| food_snapshot),
                );
                lemma_packs_bought_positive(
                    min_snapshot as int,
                    spec_servings_per_pack(
                        food_snapshot.pack.grams as int,
                        spec_serving_for(food_types@, food_snapshot.key@) as int,
                    ),
                );
                lemma_grams_total_repeat(food_snapshot, packs as nat);
                if shelf_items_wf(old(study).shelf@) && food_snapshot.grams
                    <= food_snapshot.pack.grams {
                    assert forall|i: int|
                        0 <= i < study.shelf@.len() implies #[trigger] study.shelf@[i].grams
                        <= study.shelf@[i].pack.grams by {
                        if i >= old(study).shelf@.len() {
                            assert(study.shelf@[i] == food_snapshot);
                        }
                    }
                }
            }
        },
        Event::BuyAllBasedOnFullness(params) => {
            buy_all_based_on_fullness(rng, study, tracking_steps, food_types, params);
            proof {
                let suffix = study.shelf@.skip(old(study).shelf@.len() as int);
                assert(study.shelf@ =~= old(study).shelf@ + suffix);
                lemma_grams_total_concat(old(study).shelf@, suffix);
                lemma_grams_total_nonneg(suffix);
                if shelf_items_wf(old(study).shelf@) {
                    assert forall|i: int|
                        0 <= i < study.shelf@.len() implies #[trigger] study.shelf@[i].grams
                        <= study.shelf@[i].pack.grams by {
                        if i < old(study).shelf@.len() {
                            assert(study.shelf@[i] == old(study).shelf@[i]);
                        } else {
                            assert(spec_fresh_pack_of_catalog(study.shelf@[i], food_types@));
                        }
                    }
                }
            }
        },
    }
}

} // verus!

