//! The event-source strategy library: each strategy turns its parameter
//! record, the seeded generator, the catalog, and the recent-history
//! context into zero or more concrete events.

use vstd::prelude::*;
use crate::food::{Grams, Key, PackOption, Type};
use crate::sim::{spec_fresh_pack_of_catalog, Event, EventEntry, Food};
use crate::types::{
    BuyAllBasedOnFullnessParams, BuyExactlyParams, BuyIfHalfEmptyParams, BuyNOfEverythingParams,
    BuyRandomVarietyParams, EatExactlyParams, FixedHungerAmountParams, FixedServingsAmountParams,
    RandomEventParams, ShopSomeDaysParams,
};
use crate::xs::{GaussianState, Xs};
use crate::xs;

verus! {

/// The new entries extend the old ones and are all events, never day
/// markers.
pub open spec fn spec_extended_with_events(old_ev: Seq<EventEntry>, new_ev: Seq<EventEntry>) -> bool {
    &&& new_ev.len() >= old_ev.len()
    &&& new_ev.subrange(0, old_ev.len() as int) == old_ev
    &&& forall|i: int| old_ev.len() <= i < new_ev.len() ==> #[trigger] new_ev[i] is Event
}

/// A purchase event of a fresh pack of some catalog entry, with no
/// minimum-purchase bound.
pub open spec fn spec_is_fresh_purchase(e: EventEntry, ts: Seq<Type>) -> bool {
    e matches EventEntry::Event(Event::Bought(f, m)) && spec_fresh_pack_of_catalog(f, ts) && m
        == 0
}

/// A purchase event of the first pack option of the given catalog entry.
pub open spec fn spec_is_first_option_purchase(e: EventEntry, t: Type) -> bool {
    e matches EventEntry::Event(Event::Bought(f, m)) && f.key@ == t.key@ && f.pack == t.options@[0]
        && f.grams == t.options@[0].grams && m == 0
}

/// A consumption event of a positive amount of a catalog food.
pub open spec fn spec_is_positive_catalog_ate(e: EventEntry, ts: Seq<Type>) -> bool {
    e matches EventEntry::Event(Event::Ate(k, g)) && crate::sim::spec_has_type_key(ts, k@) && 1
        <= g
}

/// A consumption event of a catalog food.
pub open spec fn spec_is_catalog_ate(e: EventEntry, ts: Seq<Type>) -> bool {
    e matches EventEntry::Event(Event::Ate(k, g)) && crate::sim::spec_has_type_key(ts, k@)
}

/// If the entry is a purchase, the purchased item is a full pack: its
/// grams equal its pack size. Every event source only ever emits such
/// purchases, which is what keeps the shelf-item invariant through a run.
pub open spec fn spec_buys_full_pack(e: EventEntry) -> bool {
    e matches EventEntry::Event(Event::Bought(f, m)) ==> f.grams == f.pack.grams
}

/// The grams requested by the consumption events of an entry run.
pub open spec fn events_ate_total(entries: Seq<EventEntry>) -> int
    decreases entries.len(),
{
    if entries.len() == 0 {
        0
    } else {
        events_ate_total(entries.drop_last()) + (match entries.last() {
            EventEntry::Event(Event::Ate(_, g)) => g as int,
            _ => 0,
        })
    }
}

/// Appending one entry adds its contribution to the requested-gram total.
pub proof fn lemma_events_ate_total_push(entries: Seq<EventEntry>, e: EventEntry)
    ensures
        events_ate_total(entries.push(e)) == events_ate_total(entries) + (match e {
            EventEntry::Event(Event::Ate(_, g)) => g as int,
            _ => 0,
        }),
{
    assert(entries.push(e).drop_last() =~= entries);
}

/// Emits the catalog-wide fullness-gated purchase pass with the spec's own
/// parameters.
pub fn buy_if_below_threshold(events: &mut Vec<EventEntry>, params: &BuyAllBasedOnFullnessParams)
    ensures
        final(events)@ == old(events)@.push(
            EventEntry::Event(Event::BuyAllBasedOnFullness(*params)),
        ),
{
    events.push(EventEntry::Event(Event::BuyAllBasedOnFullness(*params)));
}

/// Emits the fullness-gated purchase pass with the threshold pinned to one
/// half and no minimum-purchase-servings bound.
pub fn buy_if_half_empty(events: &mut Vec<EventEntry>, params: &BuyIfHalfEmptyParams)
    ensures
        final(events)@ == old(events)@.push(
            EventEntry::Event(
                Event::BuyAllBasedOnFullness(
                    BuyAllBasedOnFullnessParams {
                        max_count: params.max_count,
                        offset: params.offset,
                        fullness_threshold: crate::fixed::FIX_HALF,
                        minimum_purchase_servings: 0,
                    },
                ),
            ),
        ),
{
    events.push(
        EventEntry::Event(
            Event::BuyAllBasedOnFullness(
                BuyAllBasedOnFullnessParams {
                    max_count: params.max_count,
                    offset: params.offset,
                    fullness_threshold: crate::fixed::FIX_HALF,
                    minimum_purchase_servings: 0,
                },
            ),
        ),
    );
}

/// Emits one purchase of a random pack for each of `count` catalog slots,
/// walking the catalog from the wrapping offset.
pub fn buy_random_variety(
    events: &mut Vec<EventEntry>,
    rng: &mut Xs,
    food_types: &Vec<Type>,
    params: &BuyRandomVarietyParams,
)
    requires
        crate::food::food_types_wf(food_types@),
    ensures
        spec_extended_with_events(old(events)@, final(events)@),
        final(events)@.len() == old(events)@.len() + params.count,
        forall|i: int|
            old(events)@.len() <= i < final(events)@.len() ==> spec_is_fresh_purchase(
                #[trigger] final(events)@[i],
                food_types@,
            ),
{
    let ghost init = events@;
    let mut i: u16 = 0;
    while i < params.count
        invariant
            crate::food::food_types_wf(food_types@),
            i <= params.count,
            events@.len() == init.len() + i,
            events@.subrange(0, init.len() as int) == init,
            forall|j: int|
                init.len() <= j < events@.len() ==> spec_is_fresh_purchase(
                    #[trigger] events@[j],
                    food_types@,
                ),
        decreases params.count - i,
    {
        let index = (i as usize).wrapping_add(params.offset) % food_types.len();
        let food = Food::from_rng_of_type(&food_types[index], rng);
        events.push(EventEntry::Event(Event::Bought(food, 0)));
        proof {
            assert(events@.subrange(0, init.len() as int) =~= init);
        }
        i = i + 1;
    }
}

/// Emits `n` purchases of the first pack option of every catalog entry, in
/// catalog order.
pub fn buy_n_of_everything(
    events: &mut Vec<EventEntry>,
    food_types: &Vec<Type>,
    params: &BuyNOfEverythingParams,
)
    requires
        crate::food::food_types_wf(food_types@),
    ensures
        spec_extended_with_events(old(events)@, final(events)@),
        final(events)@.len() == old(events)@.len() + params.n as int * food_types@.len(),
        forall|k: int|
            old(events)@.len() <= k < final(events)@.len() ==> spec_is_first_option_purchase(
                #[trigger] final(events)@[k],
                food_types@[(k - old(events)@.len()) / (params.n as int)],
            ),
{
    let ghost init = events@;
    let n = params.n;
    let mut ti: usize = 0;
    while ti < food_types.len()
        invariant
            crate::food::food_types_wf(food_types@),
            ti <= food_types@.len(),
            events@.len() == init.len() + ti as int * n as int,
            events@.subrange(0, init.len() as int) == init,
            forall|k: int| init.len() <= k < events@.len() ==> #[trigger] events@[k] is Event,
            forall|k: int|
                init.len() <= k < events@.len() ==> spec_is_first_option_purchase(
                    #[trigger] events@[k],
                    food_types@[(k - init.len()) / (n as int)],
                ),
        decreases food_types@.len() - ti,
    {
        let type_ = &food_types[ti];
        let mut j: u16 = 0;
        while j < n
            invariant
                crate::food::food_types_wf(food_types@),
                ti < food_types@.len(),
                type_ == food_types@[ti as int],
                j <= n,
                events@.len() == init.len() + ti as int * n as int + j as int,
                events@.subrange(0, init.len() as int) == init,
                forall|k: int| init.len() <= k < events@.len() ==> #[trigger] events@[k] is Event,
                forall|k: int|
                    init.len() <= k < events@.len() ==> spec_is_first_option_purchase(
                        #[trigger] events@[k],
                        food_types@[(k - init.len()) / (n as int)],
                    ),
            decreases n - j,
        {
            let option = crate::food::clone_pack_option(&type_.options[0]);
            let food = Food::of_type(type_, option);
            let ghost pre = events@;
            events.push(EventEntry::Event(Event::Bought(food, 0)));
            proof {
                assert(events@.subrange(0, init.len() as int) =~= init);
                assert((ti as int * n as int + j as int) / (n as int) == ti as int)
                    by (nonlinear_arith)
                    requires
                        1 <= (n as int),
                        0 <= (j as int),
                        (j as int) < (n as int),
                        0 <= (ti as int),
                ;
                assert(spec_is_first_option_purchase(
                    events@[pre.len() as int],
                    food_types@[ti as int],
                ));
            }
            j = j + 1;
        }
        proof {
            assert((ti + 1) as int * n as int == ti as int * n as int + n as int)
                by (nonlinear_arith);
        }
        ti = ti + 1;
    }
    proof {
        assert(ti as int * n as int == n as int * food_types@.len()) by (nonlinear_arith)
            requires
                ti as int == food_types@.len(),
        ;
    }

}

/// Emits one fixed purchase event for the configured key and gram amount.
pub fn buy_exactly(events: &mut Vec<EventEntry>, params: &BuyExactlyParams)
    ensures
        spec_extended_with_events(old(events)@, final(events)@),
        final(events)@.len() == old(events)@.len() + 1,
        (final(events)@.last() matches EventEntry::Event(Event::Bought(f, m)) && f.key@
            == params.key_to_buy@ && f.grams == params.grams_to_buy && f.pack.grams
            == params.grams_to_buy && m == 0),
{
    let food = Food::of_key(
        params.key_to_buy.clone(),
        crate::food::PackOption { grams: params.grams_to_buy },
    );
    events.push(EventEntry::Event(Event::Bought(food, 0)));
    proof {
        assert(events@.subrange(0, old(events)@.len() as int) =~= old(events)@);
    }
}

/// Emits one fixed consumption event for the configured key and gram
/// amount.
pub fn eat_exactly(events: &mut Vec<EventEntry>, params: &EatExactlyParams)
    ensures
        spec_extended_with_events(old(events)@, final(events)@),
        final(events)@.len() == old(events)@.len() + 1,
        (final(events)@.last() matches EventEntry::Event(Event::Ate(k, g)) && k@
            == params.key_to_eat@ && g == params.grams_to_eat),
{
    events.push(EventEntry::Event(Event::Ate(params.key_to_eat.clone(), params.grams_to_eat)));
    proof {
        assert(events@.subrange(0, old(events)@.len() as int) =~= old(events)@);
    }
}

/// Whether some key of the list equals the given key.
pub open spec fn spec_contains_key(keys: Seq<Key>, key: Seq<char>) -> bool {
    exists|i: int| 0 <= i < keys.len() && #[trigger] keys[i]@ == key
}

/// Whether the list of keys holds the given key.
fn contains_key(keys: &Vec<Key>, key: &Key) -> (r: bool)
    ensures
        r == spec_contains_key(keys@, key@),
{
    let mut i: usize = 0;
    while i < keys.len()
        invariant
            i <= keys@.len(),
            forall|j: int| 0 <= j < i ==> #[trigger] keys@[j]@ != key@,
        decreases keys@.len() - i,
    {
        if keys[i] == *key {
            return true;
        }
        i = i + 1;
    }
    false
}

/// The catalog indices whose keys are not in the recently-eaten list; the
/// whole catalog when the filter would leave nothing to pick from. As long
/// as any food is not recently eaten, every returned index is such a food.
fn filtered_type_indices(food_types: &Vec<Type>, recently_eaten_foods: &Vec<Key>) -> (r: Vec<
    usize,
>)
    requires
        crate::food::food_types_wf(food_types@),
    ensures
        1 <= r@.len() <= food_types@.len(),
        forall|i: int| 0 <= i < r@.len() ==> #[trigger] r@[i] < food_types@.len(),
        (exists|t: int|
            0 <= t < food_types@.len() && !spec_contains_key(
                recently_eaten_foods@,
                (#[trigger] food_types@[t]).key@,
            )) ==> forall|i: int|
            0 <= i < r@.len() ==> !spec_contains_key(
                recently_eaten_foods@,
                food_types@[(#[trigger] r@[i]) as int].key@,
            ),
{
    let mut indices: Vec<usize> = Vec::new();
    let mut i: usize = 0;
    while i < food_types.len()
        invariant
            i <= food_types@.len(),
            indices@.len() <= i,
            forall|j: int| 0 <= j < indices@.len() ==> #[trigger] indices@[j] < food_types@.len(),
            forall|j: int|
                0 <= j < indices@.len() ==> !spec_contains_key(
                    recently_eaten_foods@,
                    food_types@[(#[trigger] indices@[j]) as int].key@,
                ),
            (exists|t: int|
                0 <= t < i && !spec_contains_key(
                    recently_eaten_foods@,
                    (#[trigger] food_types@[t]).key@,
                )) ==> indices@.len() >= 1,
        decreases food_types@.len() - i,
    {
        if !contains_key(recently_eaten_foods, &food_types[i].key) {
            indices.push(i);
        }
        i = i + 1;
    }
    if indices.len() == 0 {
        // Every food was eaten recently; the filter steps aside rather
        // than leave nothing to draw from.
        let mut all: Vec<usize> = Vec::new();
        let mut j: usize = 0;
        while j < food_types.len()
            invariant
                j <= food_types@.len(),
                all@.len() == j,
                forall|k: int| 0 <= k < all@.len() ==> #[trigger] all@[k] < food_types@.len(),
            decreases food_types@.len() - j,
        {
            all.push(j);
            j = j + 1;
        }
        all
    } else {
        indices
    }
}

/// Emits random consumption events, each for a random (recency-filtered)
/// food and a random positive gram amount, until exactly the configured
/// daily gram total has been requested.
pub fn fixed_hunger_amount(
    events: &mut Vec<EventEntry>,
    rng: &mut Xs,
    food_types: &Vec<Type>,
    recently_eaten_foods: &Vec<Key>,
    params: &FixedHungerAmountParams,
)
    requires
        crate::food::food_types_wf(food_types@),
    ensures
        spec_extended_with_events(old(events)@, final(events)@),
        events_ate_total(final(events)@) == events_ate_total(old(events)@)
            + params.grams_per_day,
        forall|i: int|
            old(events)@.len() <= i < final(events)@.len() ==> spec_is_positive_catalog_ate(
                #[trigger] final(events)@[i],
                food_types@,
            ),
        (exists|t: int|
            0 <= t < food_types@.len() && !spec_contains_key(
                recently_eaten_foods@,
                (#[trigger] food_types@[t]).key@,
            )) ==> forall|i: int|
            old(events)@.len() <= i < final(events)@.len() ==> ((#[trigger] final(events)@[i])
                matches EventEntry::Event(Event::Ate(k, g)) ==> !spec_contains_key(
                recently_eaten_foods@,
                k@,
            )),
{
    let ghost init = events@;
    let indices = filtered_type_indices(food_types, recently_eaten_foods);

    let mut grams_remaining: Grams = params.grams_per_day;
    while grams_remaining > 0
        invariant
            crate::food::food_types_wf(food_types@),
            1 <= indices@.len() <= food_types@.len(),
            forall|j: int| 0 <= j < indices@.len() ==> #[trigger] indices@[j] < food_types@.len(),
            events@.subrange(0, init.len() as int) == init,
            events@.len() >= init.len(),
            events_ate_total(events@) + grams_remaining == events_ate_total(init)
                + params.grams_per_day,
            forall|i: int|
                init.len() <= i < events@.len() ==> spec_is_positive_catalog_ate(
                    #[trigger] events@[i],
                    food_types@,
                ),
            (exists|t: int|
                0 <= t < food_types@.len() && !spec_contains_key(
                    recently_eaten_foods@,
                    (#[trigger] food_types@[t]).key@,
                )) ==> forall|j: int|
                0 <= j < indices@.len() ==> !spec_contains_key(
                    recently_eaten_foods@,
                    food_types@[(#[trigger] indices@[j]) as int].key@,
                ),
            (exists|t: int|
                0 <= t < food_types@.len() && !spec_contains_key(
                    recently_eaten_foods@,
                    (#[trigger] food_types@[t]).key@,
                )) ==> forall|i: int|
                init.len() <= i < events@.len() ==> ((#[trigger] events@[i]) matches
                    EventEntry::Event(Event::Ate(k, g)) ==> !spec_contains_key(
                    recently_eaten_foods@,
                    k@,
                )),
        decreases grams_remaining,
    {
        let index = indices[xs::range(rng, 0, indices.len() as u32) as usize];
        let type_ = &food_types[index];

        let amount = xs::range(rng, 1, grams_remaining as u32 + 1) as Grams;

        let ghost pre = events@;
        let key_clone = type_.key.clone();
        events.push(EventEntry::Event(Event::Ate(key_clone, amount)));
        proof {
            assert(events@.drop_last() =~= pre);
            lemma_events_ate_total_push(pre, events@.last());
            assert(pre.push(events@.last()) =~= events@);
            assert(events@.subrange(0, init.len() as int) =~= init);
            assert(food_types@[index as int].key@ == type_.key@);
            assert(crate::sim::spec_has_type_key(food_types@, type_.key@));
        }

        grams_remaining = grams_remaining - amount;
    }
    proof {
        lemma_events_ate_total_nonneg(events@);
    }
}

/// Requested-gram totals are never negative.
pub proof fn lemma_events_ate_total_nonneg(entries: Seq<EventEntry>)
    ensures
        events_ate_total(entries) >= 0,
    decreases entries.len(),
{
    if entries.len() > 0 {
        lemma_events_ate_total_nonneg(entries.drop_last());
    }
}

/// Emits random consumption events whose portions are one to four servings
/// drawn from the positive-biased Gaussian, scaled by the food's serving
/// size, until the configured daily serving total is exhausted.
pub fn fixed_servings_amount(
    events: &mut Vec<EventEntry>,
    rng: &mut Xs,
    food_types: &Vec<Type>,
    recently_eaten_foods: &Vec<Key>,
    params: &FixedServingsAmountParams,
)
    requires
        crate::food::food_types_wf(food_types@),
    ensures
        spec_extended_with_events(old(events)@, final(events)@),
        forall|i: int|
            old(events)@.len() <= i < final(events)@.len() ==> spec_is_catalog_ate(
                #[trigger] final(events)@[i],
                food_types@,
            ),
        (exists|t: int|
            0 <= t < food_types@.len() && !spec_contains_key(
                recently_eaten_foods@,
                (#[trigger] food_types@[t]).key@,
            )) ==> forall|i: int|
            old(events)@.len() <= i < final(events)@.len() ==> ((#[trigger] final(events)@[i])
                matches EventEntry::Event(Event::Ate(k, g)) ==> !spec_contains_key(
                recently_eaten_foods@,
                k@,
            )),
{
    let ghost init = events@;
    let indices = filtered_type_indices(food_types, recently_eaten_foods);

    let mut g_state = GaussianState::default();

    let mut servings_remaining: i64 = params.servings_per_day as i64 * 65536;
    while servings_remaining > 0
        invariant
            servings_remaining <= 65535 * 65536,
            crate::food::food_types_wf(food_types@),
            1 <= indices@.len() <= food_types@.len(),
            forall|j: int| 0 <= j < indices@.len() ==> #[trigger] indices@[j] < food_types@.len(),
            events@.subrange(0, init.len() as int) == init,
            events@.len() >= init.len(),
            forall|i: int|
                init.len() <= i < events@.len() ==> spec_is_catalog_ate(
                    #[trigger] events@[i],
                    food_types@,
                ),
            (exists|t: int|
                0 <= t < food_types@.len() && !spec_contains_key(
                    recently_eaten_foods@,
                    (#[trigger] food_types@[t]).key@,
                )) ==> forall|j: int|
                0 <= j < indices@.len() ==> !spec_contains_key(
                    recently_eaten_foods@,
                    food_types@[(#[trigger] indices@[j]) as int].key@,
                ),
            (exists|t: int|
                0 <= t < food_types@.len() && !spec_contains_key(
                    recently_eaten_foods@,
                    (#[trigger] food_types@[t]).key@,
                )) ==> forall|i: int|
                init.len() <= i < events@.len() ==> ((#[trigger] events@[i]) matches
                    EventEntry::Event(Event::Ate(k, g)) ==> !spec_contains_key(
                    recently_eaten_foods@,
                    k@,
                )),
        decreases (if servings_remaining > 0 { servings_remaining as int } else { 0 }),
    {
        let index = indices[xs::range(rng, 0, indices.len() as u32) as usize];
        let type_ = &food_types[index];

        // At least one serving, and as much as four.
        let g01 = xs::gaussian_zero_to_one(rng, &mut g_state);
        let spread = crate::fixed::fix_mul(g01, 196608);
        proof {
            assert(0 <= crate::fixed::spec_fix_mul(g01, 196608) <= 196608) by (nonlinear_arith)
                requires
                    0 <= g01 <= 65536,
                    crate::fixed::spec_fix_mul(g01, 196608) == crate::fixed::spec_clamp_i64(
                        crate::fixed::spec_fix_scale_down(g01 * 196608),
                    ),
            ;
        }
        let servings_count: i64 = 65536 + spread;

        let serving_grams = type_.serving;

        proof {
            assert(servings_count * serving_grams as int <= 262144 * 65535
                && servings_count * serving_grams as int >= 0) by (nonlinear_arith)
                requires
                    65536 <= servings_count <= 262144,
                    1 <= serving_grams as int <= 65535,
            ;
        }
        let amount64: i64 = servings_count * serving_grams as i64 / 65536;
        let amount: Grams = if amount64 > 65535 {
            65535
        } else {
            amount64 as Grams
        };

        events.push(EventEntry::Event(Event::Ate(type_.key.clone(), amount)));
        proof {
            assert(events@.subrange(0, init.len() as int) =~= init);
            assert(food_types@[index as int].key@ == type_.key@);
            assert(crate::sim::spec_has_type_key(food_types@, type_.key@));
        }

        servings_remaining = servings_remaining - servings_count;
    }
}

/// With probability one over the roll bound, emits `buy_count` purchases
/// of random packs; otherwise emits nothing.
pub fn shop_some_days(
    events: &mut Vec<EventEntry>,
    rng: &mut Xs,
    food_types: &Vec<Type>,
    params: &ShopSomeDaysParams,
)
    requires
        crate::food::food_types_wf(food_types@),
    ensures
        spec_extended_with_events(old(events)@, final(events)@),
        final(events)@.len() == old(events)@.len() || final(events)@.len() == old(events)@.len()
            + params.buy_count,
        forall|i: int|
            old(events)@.len() <= i < final(events)@.len() ==> spec_is_fresh_purchase(
                #[trigger] final(events)@[i],
                food_types@,
            ),
{
    let ghost init = events@;
    match xs::range(rng, 0, params.roll_one_past_max.u32()) {
        0 => {
            // Go shopping.
            let mut i: u8 = 0;
            while i < params.buy_count
                invariant
                    crate::food::food_types_wf(food_types@),
                    i <= params.buy_count,
                    events@.len() == init.len() + i,
                    events@.subrange(0, init.len() as int) == init,
                    forall|j: int|
                        init.len() <= j < events@.len() ==> spec_is_fresh_purchase(
                            #[trigger] events@[j],
                            food_types@,
                        ),
                decreases params.buy_count - i,
            {
                let food = Food::from_rng(food_types, rng);
                events.push(EventEntry::Event(Event::Bought(food, 0)));
                proof {
                    assert(events@.subrange(0, init.len() as int) =~= init);
                }
                i = i + 1;
            }
        },
        _ => {
            // Skip shopping.
        },
    }
    proof {
        assert(events@.subrange(0, old(events)@.len() as int) =~= old(events)@);
    }
}

/// With probability one over the roll bound, emits one uniformly random
/// event - a purchase of a fresh catalog pack or a consumption of a
/// catalog food; otherwise emits nothing.
pub fn random_event(
    events: &mut Vec<EventEntry>,
    rng: &mut Xs,
    food_types: &Vec<Type>,
    params: &RandomEventParams,
)
    requires
        crate::food::food_types_wf(food_types@),
    ensures
        spec_extended_with_events(old(events)@, final(events)@),
        final(events)@.len() <= old(events)@.len() + 1,
        forall|i: int|
            old(events)@.len() <= i < final(events)@.len() ==> spec_buys_full_pack(
                #[trigger] final(events)@[i],
            ),
        forall|i: int|
            old(events)@.len() <= i < final(events)@.len() ==> (spec_is_fresh_purchase(
                #[trigger] final(events)@[i],
                food_types@,
            ) || spec_is_catalog_ate(final(events)@[i], food_types@)),
{
    match xs::range(rng, 0, params.roll_one_past_max.u32()) {
        0 => {
            let event = Event::from_rng(food_types, rng);
            proof {
                match &event {
                    Event::Ate(k, g) => {
                        let i = choose|i: int|
                            0 <= i < food_types@.len() && #[trigger] food_types@[i].key@ == k@
                                && food_types@[i].options@.contains(PackOption { grams: *g });
                        assert(food_types@[i].key@ == k@);
                        assert(crate::sim::spec_has_type_key(food_types@, k@));
                    },
                    _ => {},
                }
            }
            events.push(EventEntry::Event(event));
            proof {
                assert(events@.subrange(0, old(events)@.len() as int) =~= old(events)@);
                assert(spec_is_fresh_purchase(events@.last(), food_types@)
                    || spec_is_catalog_ate(events@.last(), food_types@));
            }
        },
        _ => {},
    }
    proof {
        assert(events@.subrange(0, old(events)@.len() as int) =~= old(events)@);
    }
}

} // verus!
