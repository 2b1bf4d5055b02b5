//! Seeded xorshift-128 pseudo-random generator and derived helpers.
//!
//! Every piece of randomness in a simulation run flows through one `Xs`
//! state, so a fixed seed reproduces an identical run.

use vstd::prelude::*;

verus! {

/// A 128-bit seed, stored as 16 little-endian bytes.
pub type Seed = [u8; 16];

/// The xorshift-128 state: four 32-bit words.
pub type Xs = [u32; 4];

/// The next first word of the state: mixes the rotated-out word `t0` with
/// the former first word `s`.
pub open spec fn spec_xorshift_word(t0: u32, s: u32) -> u32 {
    let t1 = t0 ^ (t0 << 11);
    let t2 = t1 ^ (t1 >> 8);
    t2 ^ s ^ (s >> 19)
}

/// The state after one xorshift step.
pub open spec fn spec_xorshift_state(xs: Xs) -> Xs {
    [spec_xorshift_word(xs[3], xs[0]), xs[0], xs[1], xs[2]]
}

/// Advances the state one step and returns the new first word.
pub fn xorshift(xs: &mut Xs) -> (r: u32)
    ensures
        *final(xs) == spec_xorshift_state(*old(xs)),
        r == spec_xorshift_word(old(xs)[3], old(xs)[0]),
{
    let mut t = xs[3];

    xs[3] = xs[2];
    xs[2] = xs[1];
    xs[1] = xs[0];

    t = t ^ (t << 11);
    t = t ^ (t >> 8);
    xs[0] = t ^ xs[0] ^ (xs[0] >> 19);

    let r = xs[0];
    proof {
        assert(*xs =~= spec_xorshift_state(*old(xs)));
    }
    r
}

/// A uniform (modulo-biased) draw in `[min, one_past_max)`.
pub fn range(xs: &mut Xs, min: u32, one_past_max: u32) -> (r: u32)
    requires
        min < one_past_max,
    ensures
        *final(xs) == spec_xorshift_state(*old(xs)),
        r == spec_xorshift_word(old(xs)[3], old(xs)[0]) as int % (one_past_max - min) + min,
        min <= r < one_past_max,
{
    (xorshift(xs) % (one_past_max - min)) + min
}

/// Exchanges the elements at `i` and `j`.
fn vec_swap<A>(v: &mut Vec<A>, i: usize, j: usize)
    requires
        i < old(v)@.len(),
        j < old(v)@.len(),
    ensures
        final(v)@ == old(v)@.update(i as int, old(v)@[j as int]).update(
            j as int,
            old(v)@[i as int],
        ),
        final(v)@.to_multiset() == old(v)@.to_multiset(),
{
    let ghost s0 = v@;
    if i == j {
        proof {
            assert(v@ =~= s0.update(i as int, s0[j as int]).update(j as int, s0[i as int]));
        }
        return ;
    }
    let lo: usize = if i < j {
        i
    } else {
        j
    };
    let hi: usize = if i < j {
        j
    } else {
        i
    };
    let x = v.remove(hi);
    let y = v.remove(lo);
    v.insert(lo, x);
    v.insert(hi, y);
    proof {
        assert(v@ =~= s0.update(i as int, s0[j as int]).update(j as int, s0[i as int]));
        lemma_update_swap_multiset(s0, i as int, j as int);
    }
}

/// Swapping two positions of a sequence keeps its multiset of elements.
proof fn lemma_update_swap_multiset<A>(s: Seq<A>, i: int, j: int)
    requires
        0 <= i < s.len(),
        0 <= j < s.len(),
    ensures
        s.update(i, s[j]).update(j, s[i]).to_multiset() == s.to_multiset(),
    decreases s.len(),
{
    broadcast use vstd::seq_lib::group_to_multiset_ensures;
    broadcast use vstd::multiset::group_multiset_axioms;

    let t = s.update(i, s[j]).update(j, s[i]);
    if i == j {
        assert(t =~= s);
    } else {
        let lo = if i < j {
            i
        } else {
            j
        };
        let hi = if i < j {
            j
        } else {
            i
        };
        assert(t =~= s.update(lo, s[hi]).update(hi, s[lo]));
        let u = s.update(lo, s[hi]).update(hi, s[lo]);
        // Peel off index hi from both sides, then the rest agrees after one
        // more removal at lo.
        assert(u.remove(hi) =~= s.update(lo, s[hi]).remove(hi));
        assert(s.update(lo, s[hi]).remove(hi) =~= s.remove(hi).update(lo, s[hi]));
        assert(u.remove(hi).remove(lo) =~= s.remove(hi).remove(lo));
        assert(u.to_multiset() =~= u.remove(hi).to_multiset().insert(u[hi])) by {
            lemma_to_multiset_remove_insert(u, hi);
        }
        assert(u.remove(hi).to_multiset() =~= u.remove(hi).remove(lo).to_multiset().insert(
            u.remove(hi)[lo],
        )) by {
            lemma_to_multiset_remove_insert(u.remove(hi), lo);
        }
        assert(s.to_multiset() =~= s.remove(hi).to_multiset().insert(s[hi])) by {
            lemma_to_multiset_remove_insert(s, hi);
        }
        assert(s.remove(hi).to_multiset() =~= s.remove(hi).remove(lo).to_multiset().insert(
            s.remove(hi)[lo],
        )) by {
            lemma_to_multiset_remove_insert(s.remove(hi), lo);
        }
        assert(u[hi] == s[lo]);
        assert(u.remove(hi)[lo] == s[hi]);
        assert(s.remove(hi)[lo] == s[lo]);
        assert(u.to_multiset() =~= s.to_multiset());
    }
}

/// Removing an element and inserting its value back gives the same multiset.
proof fn lemma_to_multiset_remove_insert<A>(s: Seq<A>, i: int)
    requires
        0 <= i < s.len(),
    ensures
        s.to_multiset() =~= s.remove(i).to_multiset().insert(s[i]),
{
    broadcast use vstd::seq_lib::group_to_multiset_ensures;
    broadcast use vstd::multiset::group_multiset_axioms;

    assert(s.contains(s[i]));
    assert(s.to_multiset().count(s[i]) > 0);
    assert(s.remove(i).to_multiset() =~= s.to_multiset().remove(s[i]));
}

/// The Fisher-Yates walk from position `i`: one draw picks a partner in
/// `[0, i]`, the two positions swap, and the walk moves on, threading the
/// generator state through.
pub open spec fn spec_fisher_yates<A>(s: Seq<A>, xs: Xs, i: int) -> (Seq<A>, Xs)
    decreases s.len() - i,
{
    if i < 1 || i >= s.len() {
        (s, xs)
    } else {
        let r = spec_xorshift_word(xs[3], xs[0]) as int % (i + 1);
        spec_fisher_yates(s.update(i, s[r]).update(r, s[i]), spec_xorshift_state(xs), i + 1)
    }
}

/// Fisher-Yates shuffle: exactly the permutation and generator advance
/// that `spec_fisher_yates` describes, one uniform draw per position from
/// the second on. A sequence of `u32::MAX` elements or more is returned
/// unchanged with the generator untouched, a guard for the draw's 32-bit
/// range.
pub fn shuffle<A>(xs: &mut Xs, slice: &mut Vec<A>)
    ensures
        final(slice)@.to_multiset() == old(slice)@.to_multiset(),
        final(slice)@.len() == old(slice)@.len(),
        old(slice)@.len() >= u32::MAX ==> final(slice)@ == old(slice)@ && *final(xs) == *old(
            xs,
        ),
        old(slice)@.len() < u32::MAX ==> (final(slice)@, *final(xs)) == spec_fisher_yates(
            old(slice)@,
            *old(xs),
            1,
        ),
{
    broadcast use vstd::seq_lib::group_to_multiset_ensures;

    if slice.len() >= u32::MAX as usize {
        return ;
    }
    let mut i: u32 = 1;
    while i < slice.len() as u32
        invariant
            1 <= i,
            slice@.to_multiset() == old(slice)@.to_multiset(),
            slice@.len() == old(slice)@.len(),
            slice@.len() < u32::MAX as usize,
            spec_fisher_yates(old(slice)@, *old(xs), 1) == spec_fisher_yates(
                slice@,
                *xs,
                i as int,
            ),
        decreases slice@.len() - i,
    {
        let r = range(xs, 0, i + 1) as usize;
        vec_swap(slice, i as usize, r);
        i = i + 1;
    }
}

/// The word made of four little-endian bytes.
pub open spec fn spec_word_le(b0: u8, b1: u8, b2: u8, b3: u8) -> u32 {
    (b0 as u32) | ((b1 as u32) << 8) | ((b2 as u32) << 16) | ((b3 as u32) << 24)
}

/// Splitting a word into bytes and reassembling them gives the word back.
proof fn lemma_word_le_roundtrip(w: u32)
    ensures
        spec_word_le(w as u8, (w >> 8) as u8, (w >> 16) as u8, (w >> 24) as u8) == w,
{
    assert(((w as u8) as u32) | ((((w >> 8) as u8) as u32) << 8) | ((((w >> 16) as u8) as u32)
        << 16) | ((((w >> 24) as u8) as u32) << 24) == w) by (bit_vector);
}

/// The state a seed unpacks to, before the all-zero remap.
pub open spec fn spec_state_of_seed(seed: Seed) -> Xs {
    [
        spec_word_le(seed[0], seed[1], seed[2], seed[3]),
        spec_word_le(seed[4], seed[5], seed[6], seed[7]),
        spec_word_le(seed[8], seed[9], seed[10], seed[11]),
        spec_word_le(seed[12], seed[13], seed[14], seed[15]),
    ]
}

/// Four xorshift draws, laid out little-endian, give a fresh seed: the seed
/// unpacks to exactly the four words that were drawn.
pub fn new_seed(xs: &mut Xs) -> (seed: Seed)
    ensures
        *final(xs) == spec_xorshift_state(
            spec_xorshift_state(spec_xorshift_state(spec_xorshift_state(*old(xs)))),
        ),
        spec_state_of_seed(seed) == [
            spec_xorshift_state(*old(xs))[0],
            spec_xorshift_state(spec_xorshift_state(*old(xs)))[0],
            spec_xorshift_state(spec_xorshift_state(spec_xorshift_state(*old(xs))))[0],
            spec_xorshift_state(
                spec_xorshift_state(spec_xorshift_state(spec_xorshift_state(*old(xs)))),
            )[0],
        ],
{
    let s0 = xorshift(xs);
    let s1 = xorshift(xs);
    let s2 = xorshift(xs);
    let s3 = xorshift(xs);

    let seed: Seed = [
        s0 as u8,
        (s0 >> 8) as u8,
        (s0 >> 16) as u8,
        (s0 >> 24) as u8,
        s1 as u8,
        (s1 >> 8) as u8,
        (s1 >> 16) as u8,
        (s1 >> 24) as u8,
        s2 as u8,
        (s2 >> 8) as u8,
        (s2 >> 16) as u8,
        (s2 >> 24) as u8,
        s3 as u8,
        (s3 >> 8) as u8,
        (s3 >> 16) as u8,
        (s3 >> 24) as u8,
    ];
    proof {
        lemma_word_le_roundtrip(s0);
        lemma_word_le_roundtrip(s1);
        lemma_word_le_roundtrip(s2);
        lemma_word_le_roundtrip(s3);
        assert(spec_state_of_seed(seed) =~= [s0, s1, s2, s3]);
    }
    seed
}

/// The all-zero seed.
pub open spec fn spec_zero_seed() -> Seed {
    [0u8, 0, 0, 0, 0, 0, 0, 0, 0, 0, 0, 0, 0, 0, 0, 0]
}

/// The fixed replacement for the degenerate all-zero seed: the little-endian
/// bytes of the constant `0xBAD_5EED`.
pub open spec fn spec_fallback_seed() -> Seed {
    [0xEDu8, 0x5E, 0xAD, 0x0B, 0, 0, 0, 0, 0, 0, 0, 0, 0, 0, 0, 0]
}

/// Unpacks a seed into the xorshift state; the all-zero seed is remapped to
/// a fixed non-zero constant because the recurrence is degenerate there.
pub fn from_seed(seed: Seed) -> (xs: Xs)
    ensures
        seed != spec_zero_seed() ==> xs == spec_state_of_seed(seed),
        seed == spec_zero_seed() ==> xs == spec_state_of_seed(spec_fallback_seed()),
{
    let mut all_zero = true;
    let mut i: usize = 0;
    while i < 16
        invariant
            i <= 16,
            all_zero <==> (forall|j: int| 0 <= j < i ==> seed[j] == 0),
        decreases 16 - i,
    {
        if seed[i] != 0 {
            all_zero = false;
        }
        i = i + 1;
    }

    let s: Seed = if all_zero {
        proof {
            assert(seed =~= spec_zero_seed());
        }
        [0xEDu8, 0x5E, 0xAD, 0x0B, 0, 0, 0, 0, 0, 0, 0, 0, 0, 0, 0, 0]
    } else {
        proof {
            let j = choose|j: int| 0 <= j < 16 && seed[j] != 0;
            assert(seed[j] != spec_zero_seed()[j]);
        }
        seed
    };

    [
        word_le(s[0], s[1], s[2], s[3]),
        word_le(s[4], s[5], s[6], s[7]),
        word_le(s[8], s[9], s[10], s[11]),
        word_le(s[12], s[13], s[14], s[15]),
    ]
}

fn word_le(b0: u8, b1: u8, b2: u8, b3: u8) -> (r: u32)
    ensures
        r == spec_word_le(b0, b1, b2, b3),
{
    (b0 as u32) | ((b1 as u32) << 8) | ((b2 as u32) << 16) | ((b3 as u32) << 24)
}

/// The value of one uniform `[-1, 1]` fixed-point draw, as a function of
/// the generator state.
pub open spec fn spec_m121(xs: Xs) -> i64 {
    (spec_xorshift_word(xs[3], xs[0]) as int % 131073 - 65536) as i64
}

/// A uniform fixed-point draw in `[-1, 1]`.
fn minus_one_to_one(xs: &mut Xs) -> (r: i64)
    ensures
        -65536 <= r <= 65536,
        r == spec_m121(*old(xs)),
        *final(xs) == spec_xorshift_state(*old(xs)),
{
    let draw = range(xs, 0, 2 * 65536 + 1);
    draw as i64 - 65536
}

/// The whole part of the base-two logarithm: halvings until the value
/// drops below two, capped at fifteen.
pub open spec fn spec_log2_whole(m: int, p: int) -> int
    decreases m,
{
    if m >= 2 && p < 15 {
        spec_log2_whole(m / 2, p + 1)
    } else {
        p
    }
}

/// Doublings into the fixed-point interval `[1, 2)`.
pub open spec fn spec_log2_norm(norm: int) -> int
    decreases (if norm < 65536 {
        65536 - norm
    } else {
        0
    }),
{
    if 1 <= norm < 65536 {
        spec_log2_norm(norm * 2)
    } else {
        norm
    }
}

/// The fractional bits of the base-two logarithm, extracted by repeated
/// squaring: each round squares the mantissa and records whether it
/// crossed two.
pub open spec fn spec_log2_frac(norm: int, frac: int, weight: int, round: int) -> int
    decreases 16 - round,
{
    if round >= 16 {
        frac
    } else {
        let sq = norm * norm / 65536;
        if sq >= 131072 {
            spec_log2_frac(sq / 2, frac + weight, weight / 2, round + 1)
        } else {
            spec_log2_frac(sq, frac, weight / 2, round + 1)
        }
    }
}

/// The base-two logarithm in fixed-point units, as a mathematical
/// function: the whole part from halvings, sixteen fractional bits from
/// repeated squaring, the fraction capped below one.
pub open spec fn spec_log2_q16(a: int) -> int {
    let whole = spec_log2_whole(a, 0) * 65536;
    let f0 = spec_log2_frac(spec_log2_norm(a), 0, 32768, 0);
    let f = if f0 > 65535 {
        65535
    } else {
        f0
    };
    whole + f
}

/// The base-two logarithm of `a`, in fixed-point units, for `1 <= a <
/// 65536`. Computed by normalising to `[1, 2)` and squaring out sixteen
/// fractional bits.
fn log2_q16(a: u32) -> (r: i64)
    requires
        1 <= a < 65536,
    ensures
        0 <= r < 16 * 65536,
        r == spec_log2_q16(a as int),
{
    let mut p: u32 = 0;
    let mut m: u64 = a as u64;
    while m >= 2 && p < 15
        invariant
            1 <= m,
            p <= 15,
            m < 65536,
            spec_log2_whole(a as int, 0) == spec_log2_whole(m as int, p as int),
        decreases m,
    {
        proof {
            assert(spec_log2_whole(m as int, p as int) == spec_log2_whole(
                m as int / 2,
                p as int + 1,
            ));
        }
        m = m / 2;
        p = p + 1;
    }
    proof {
        assert(spec_log2_whole(a as int, 0) == p as int);
    }

    // Normalise into [1, 2) in fixed point.
    let mut norm: u64 = a as u64;
    while norm < 65536
        invariant
            1 <= norm < 131072,
            spec_log2_norm(a as int) == spec_log2_norm(norm as int),
        decreases 131072 - norm,
    {
        proof {
            assert(spec_log2_norm(norm as int) == spec_log2_norm(norm as int * 2));
        }
        norm = norm * 2;
    }
    proof {
        assert(spec_log2_norm(a as int) == norm as int);
    }
    let ghost norm0 = norm as int;

    // Extract sixteen fractional bits of log2 by repeated squaring.
    let mut frac: i64 = 0;
    let mut weight: i64 = 32768;
    let mut round: u32 = 0;
    while round < 16
        invariant
            65536 <= norm < 131072,
            0 <= frac,
            0 <= weight <= 32768,
            frac + 2 * weight <= 65536,
            round <= 16,
            spec_log2_frac(norm0, 0, 32768, 0) == spec_log2_frac(
                norm as int,
                frac as int,
                weight as int,
                round as int,
            ),
        decreases 16 - round,
    {
        proof {
            assert(norm * norm <= 131071 * 131071) by (nonlinear_arith)
                requires
                    norm < 131072u64,
            ;
            assert(65536 <= norm * norm / 65536 < 262144) by (nonlinear_arith)
                requires
                    65536u64 <= norm < 131072u64,
            ;
        }
        let sq: u64 = (norm * norm) / 65536;
        proof {
            assert(sq as int == (norm as int * norm as int) / 65536);
            if sq >= 131072 {
                assert(spec_log2_frac(norm as int, frac as int, weight as int, round as int)
                    == spec_log2_frac(
                    sq as int / 2,
                    frac as int + weight as int,
                    weight as int / 2,
                    round as int + 1,
                ));
            } else {
                assert(spec_log2_frac(norm as int, frac as int, weight as int, round as int)
                    == spec_log2_frac(
                    sq as int,
                    frac as int,
                    weight as int / 2,
                    round as int + 1,
                ));
            }
        }
        if sq >= 131072 {
            norm = sq / 2;
            frac = frac + weight;
        } else {
            norm = sq;
        }
        weight = weight / 2;
        round = round + 1;
    }
    proof {
        assert(spec_log2_frac(norm0, 0, 32768, 0) == frac as int);
    }
    let whole: i64 = (p as i64) * 65536;
    if frac > 65535 {
        frac = 65535;
    }
    whole + frac
}

/// One-sample cache for the Box-Muller transform.
#[derive(Debug)]
pub struct GaussianState {
    pub cached: Option<i64>,
}

impl Default for GaussianState {
    fn default() -> (r: GaussianState)
        ensures
            r.cached is None,
    {
        GaussianState { cached: None }
    }
}

/// The rejection walk for a uniform point in the unit disk: pairs of
/// draws are consumed until one lands strictly inside the disk and away
/// from the origin, with a fixed in-disk fallback after 4096 failures.
/// Yields the pair, its squared radius, and the generator state left
/// behind.
pub open spec fn spec_gauss_reject(xs: Xs, tries: int) -> (i64, i64, i64, Xs)
    decreases 4096 - tries,
{
    if tries >= 4096 {
        (32768i64, 32768i64, 32768i64, xs)
    } else {
        let x1 = spec_m121(xs);
        let xs1 = spec_xorshift_state(xs);
        let x2 = spec_m121(xs1);
        let xs2 = spec_xorshift_state(xs1);
        let r2 = crate::fixed::spec_fix_mul(x1, x1) + crate::fixed::spec_fix_mul(x2, x2);
        if r2 >= 65536 || r2 == 0 {
            spec_gauss_reject(xs2, tries + 1)
        } else {
            (x1, x2, (r2) as i64, xs2)
        }
    }
}

/// One fresh Box-Muller draw as a mathematical function of the generator
/// state: the returned sample, the sample left in the cache, and the
/// generator state left behind.
pub open spec fn spec_gaussian_draw(xs: Xs) -> (i64, i64, Xs) {
    let rej = spec_gauss_reject(xs, 0);
    let t = crate::fixed::spec_fix_mul(90852, (16 * 65536 - spec_log2_q16(rej.2 as int)) as i64);
    let q = crate::fixed::spec_fix_div(t, rej.2);
    let f = crate::fixed::spec_fix_sqrt(q as int) as i64;
    (crate::fixed::spec_fix_mul(f, rej.1), crate::fixed::spec_fix_mul(f, rej.0), rej.3)
}

/// A fixed-point sample from an approximately normal distribution centered
/// at 0. No promise is made about the range of the values. The Box-Muller
/// transform yields two samples per pair of uniform draws; one is cached,
/// and a call that finds a cached sample returns it without touching the
/// generator; a fresh call returns and caches exactly what
/// `spec_gaussian_draw` describes.
pub fn gaussian(xs: &mut Xs, state: &mut GaussianState) -> (r: i64)
    ensures
        old(state).cached matches Some(c) ==> r == c && final(state).cached is None && *final(xs)
            == *old(xs),
        old(state).cached is None ==> ({
            let d = spec_gaussian_draw(*old(xs));
            &&& r == d.0
            &&& final(state).cached == Some(d.1)
            &&& *final(xs) == d.2
        }),
{
    match state.cached {
        Some(cached) => {
            state.cached = None;
            cached
        },
        None => {
            let mut x1: i64 = 0;
            let mut x2: i64 = 0;
            let mut r2: i64 = 0;
            // Rejection sampling of a point in the unit disk. The xorshift
            // stream leaves the disk far too often for the retry bound to
            // matter; the bound only makes termination a theorem, with a
            // fixed in-disk fallback on exhaustion.
            let mut tries: u32 = 0;
            loop
                invariant_except_break
                    tries <= 4096,
                    spec_gauss_reject(*old(xs), 0) == spec_gauss_reject(*xs, tries as int),
                ensures
                    1 <= r2 < 65536,
                    -65536 <= x1 <= 65536,
                    -65536 <= x2 <= 65536,
                    (x1, x2, r2, *xs) == spec_gauss_reject(*old(xs), 0),
                decreases 4096 - tries,
            {
                if tries >= 4096 {
                    x1 = 32768;
                    x2 = 32768;
                    r2 = 32768;
                    proof {
                        assert(spec_gauss_reject(*xs, 4096) == (32768i64, 32768i64, 32768i64, *xs));
                    }
                    break ;
                }
                let ghost xs_head = *xs;
                tries = tries + 1;
                x1 = minus_one_to_one(xs);
                x2 = minus_one_to_one(xs);
                let s1 = crate::fixed::fix_mul(x1, x1);
                let s2 = crate::fixed::fix_mul(x2, x2);
                proof {
                    assert(0 <= crate::fixed::spec_fix_mul(x1, x1) <= 65536
                        && 0 <= crate::fixed::spec_fix_mul(x2, x2) <= 65536)
                        by (nonlinear_arith)
                        requires
                            -65536 <= x1 <= 65536,
                            -65536 <= x2 <= 65536,
                            crate::fixed::spec_fix_mul(x1, x1) == crate::fixed::spec_clamp_i64(
                                crate::fixed::spec_fix_scale_down(x1 * x1),
                            ),
                            crate::fixed::spec_fix_mul(x2, x2) == crate::fixed::spec_clamp_i64(
                                crate::fixed::spec_fix_scale_down(x2 * x2),
                            ),
                    ;
                }
                r2 = s1 + s2;

                if !(r2 >= 65536 || r2 == 0) {
                    proof {
                        assert(spec_gauss_reject(xs_head, tries as int - 1) == (x1, x2, r2, *xs));
                    }
                    break ;
                }
                proof {
                    assert(spec_gauss_reject(xs_head, tries as int - 1) == spec_gauss_reject(
                        *xs,
                        tries as int,
                    ));
                }
            }

            // -2 ln(r2 / 2^16) = 2 ln 2 * (16 - log2(r2) / 2^16), all >= 0.
            let log2_r2 = log2_q16(r2 as u32);
            let diff: i64 = 16 * 65536 - log2_r2;
            // 2 * ln 2 in fixed point.
            let t = crate::fixed::fix_mul(90852, diff);
            proof {
                assert(0 <= crate::fixed::spec_fix_mul(90852, diff) <= 90852 * 16)
                    by (nonlinear_arith)
                    requires
                        0 < diff <= 16 * 65536,
                        crate::fixed::spec_fix_mul(90852, diff) == crate::fixed::spec_clamp_i64(
                            crate::fixed::spec_fix_scale_down(90852 * diff),
                        ),
                ;
            }
            let q = crate::fixed::fix_div(t, r2);
            proof {
                assert(0 <= crate::fixed::spec_fix_div(t, r2) <= t * 65536) by (nonlinear_arith)
                    requires
                        1 <= r2,
                        0 <= t,
                        crate::fixed::spec_fix_div(t, r2) == crate::fixed::spec_fix_scale_down_by(
                            t * 65536,
                            r2 as int,
                        ),
                ;
            }
            let f = crate::fixed::fix_sqrt(q);

            proof {
                let d = spec_gaussian_draw(*old(xs));
                assert(d.0 == crate::fixed::spec_fix_mul(f, x2));
                assert(d.1 == crate::fixed::spec_fix_mul(f, x1));
                assert(d.2 == *xs);
            }
            state.cached = Some(crate::fixed::fix_mul(f, x1));

            crate::fixed::fix_mul(f, x2)
        },
    }
}

/// Whole turns added until the value is no longer negative.
pub open spec fn spec_wrap_up(v: int) -> int
    decreases (if v < 0 {
        0 - v
    } else {
        0
    }),
{
    if v < 0 {
        spec_wrap_up(v + 65536)
    } else {
        v
    }
}

/// Whole turns removed until the value is no longer above one.
pub open spec fn spec_wrap_down(v: int) -> int
    decreases (if v > 65536 {
        v
    } else {
        0
    }),
{
    if v > 65536 {
        spec_wrap_down(v - 65536)
    } else {
        v
    }
}

/// A value wrapped into the unit interval, one whole turn at a time.
pub open spec fn spec_unit_wrap(v: int) -> int {
    spec_wrap_down(spec_wrap_up(v))
}

/// A fixed-point sample in `[0, 1]`: a Gaussian sample recentred around
/// one half and wrapped into the unit interval - exactly
/// `spec_unit_wrap` of the underlying sample plus one half, saturating.
pub fn gaussian_zero_to_one(xs: &mut Xs, state: &mut GaussianState) -> (r: i64)
    ensures
        0 <= r <= 65536,
        old(state).cached matches Some(c) ==> r == spec_unit_wrap(
            crate::fixed::spec_sat_add(c, 32768) as int,
        ) && final(state).cached is None && *final(xs) == *old(xs),
        old(state).cached is None ==> ({
            let d = spec_gaussian_draw(*old(xs));
            &&& r == spec_unit_wrap(crate::fixed::spec_sat_add(d.0, 32768) as int)
            &&& final(state).cached == Some(d.1)
            &&& *final(xs) == d.2
        }),
{
    let mut output = gaussian(xs, state);

    output = crate::fixed::sat_add(output, 32768);
    let ghost v0 = output as int;

    while output < 0
        invariant
            output >= i64::MIN,
            spec_wrap_up(v0) == spec_wrap_up(output as int),
        decreases (if output < 0 { 0 - output as int } else { 0int }),
    {
        output = output + 65536;
    }
    proof {
        assert(spec_wrap_up(v0) == output as int);
    }

    while output > 65536
        invariant
            output >= 0,
            spec_wrap_down(spec_wrap_up(v0)) == spec_wrap_down(output as int),
        decreases output,
    {
        output = output - 65536;
    }
    proof {
        assert(spec_unit_wrap(v0) == output as int);
    }

    output
}

} // verus!
