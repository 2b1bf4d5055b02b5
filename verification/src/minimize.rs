//! A derivative-free Nelder-Mead simplex minimizer over fixed-point
//! coordinates, generic in the dimension. It knows nothing of the
//! simulation: the objective is an opaque function value.

use vstd::prelude::*;
use vstd::array::array_fill_for_copy_types;
use crate::fixed::{
    fix_div, fix_mul, fix_sqrt, half, sat_add, sat_sub, spec_fix_div, spec_fix_mul,
    spec_fix_scale_down_by, spec_fix_sqrt, spec_sat_add, spec_sat_sub,
};

verus! {

/// The inputs and the output of one objective-function call.
#[derive(Clone, Copy, Debug)]
pub struct Call<const N: usize> {
    pub xs: [i64; N],
    pub y: i64,
}

/// A simplex of `N + 1` vertices in `N` dimensions, stored as `N` rows
/// plus one extra vertex because array lengths cannot express `N + 1`.
#[derive(Clone, Copy, Debug)]
pub struct Simplex<const N: usize> {
    pub n: [[i64; N]; N],
    pub plus_one: [i64; N],
}

impl<const N: usize> Simplex<N> {
    /// The vertex at the index: row `i` of `n`, or the extra vertex at
    /// index `N`.
    pub open spec fn spec_point(self, i: int) -> [i64; N] {
        if i == N {
            self.plus_one
        } else {
            self.n@[i]
        }
    }

    /// How many vertices the simplex has.
    pub fn len(&self) -> (r: usize)
        requires
            N < usize::MAX,
        ensures
            r == N + 1,
    {
        N + 1
    }

    /// Reads the vertex at the index.
    pub fn point(&self, index: usize) -> (r: [i64; N])
        requires
            index <= N,
        ensures
            r == self.spec_point(index as int),
    {
        if index == N {
            self.plus_one
        } else {
            self.n[index]
        }
    }

    /// Replaces the vertex at the index.
    pub fn set_point(&mut self, index: usize, v: [i64; N])
        requires
            index <= N,
        ensures
            final(self).spec_point(index as int) == v,
            forall|k: int|
                0 <= k <= N && k != index ==> final(self).spec_point(k) == old(self).spec_point(
                    k,
                ),
    {
        if index == N {
            self.plus_one = v;
        } else {
            self.n[index] = v;
        }
    }
}

/// The fixed-point cosine of 45 degrees: half the square root of two.
pub open spec fn spec_cos45() -> i64 {
    spec_fix_scale_down_by(spec_fix_sqrt(131072), 2)
}

/// The off-diagonal coordinate of the origin-centered regular simplex.
pub open spec fn spec_base_coord(n: int) -> i64 {
    let nf = n * 65536;
    let s = spec_fix_sqrt(nf + 65536) as i64;
    let inv = spec_fix_div(65536, s);
    let c_over_n = spec_fix_div(spec_cos45(), nf as i64);
    spec_sat_sub(0, spec_fix_mul(c_over_n, spec_sat_sub(65536, inv)))
}

/// The diagonal coordinate of the origin-centered regular simplex.
pub open spec fn spec_diag_coord(n: int) -> i64 {
    spec_sat_add(spec_cos45(), spec_base_coord(n))
}

/// The coordinate shared by the extra vertex of the origin-centered
/// regular simplex.
pub open spec fn spec_plus_one_coord(n: int) -> i64 {
    spec_sat_sub(0, spec_fix_div(65536, spec_fix_sqrt(2 * (n * 65536 + 65536)) as i64))
}

/// A regular simplex centered at the origin: the rows carry one diagonal
/// coordinate and a shared off-diagonal coordinate, and the extra vertex
/// is uniform.
pub fn regular_simplex<const N: usize>() -> (output: Simplex<N>)
    requires
        1 <= N <= 16384,
    ensures
        forall|i: int, j: int|
            0 <= i < N && 0 <= j < N ==> output.n@[i]@[j] == (if i == j {
                spec_diag_coord(N as int)
            } else {
                spec_base_coord(N as int)
            }),
        forall|i: int| 0 <= i < N ==> output.plus_one@[i] == spec_plus_one_coord(N as int),
{
    let n_fix: i64 = (N as i64) * 65536;

    let cos_45 = half(fix_sqrt(131072));

    let s = fix_sqrt(n_fix + 65536);
    proof {
        if s == 0 {
            assert((0int + 1) * (0int + 1) == 1);
        }
    }
    let inv = fix_div(65536, s);
    let c_over_n = fix_div(cos_45, n_fix);
    let base = sat_sub(0, fix_mul(c_over_n, sat_sub(65536, inv)));
    let diag = sat_add(cos_45, base);

    let s2 = fix_sqrt(2 * (n_fix + 65536));
    proof {
        if s2 == 0 {
            assert((0int + 1) * (0int + 1) == 1);
        }
    }
    let plus_one_value = sat_sub(0, fix_div(65536, s2));

    let zero_row: [i64; N] = array_fill_for_copy_types(0);
    let mut n_arr: [[i64; N]; N] = array_fill_for_copy_types(zero_row);

    let mut i: usize = 0;
    while i < N
        invariant
            1 <= N <= 16384,
            i <= N,
            n_arr@.len() == N,
            base == spec_base_coord(N as int),
            diag == spec_diag_coord(N as int),
            forall|r: int, j: int|
                0 <= r < i && 0 <= j < N ==> n_arr@[r]@[j] == (if r == j {
                    spec_diag_coord(N as int)
                } else {
                    spec_base_coord(N as int)
                }),
        decreases N - i,
    {
        let mut row: [i64; N] = array_fill_for_copy_types(base);
        row[i] = diag;
        n_arr[i] = row;
        i = i + 1;
    }

    let plus_one: [i64; N] = array_fill_for_copy_types(plus_one_value);

    Simplex { n: n_arr, plus_one }
}

/// The coordinate of the origin-centered regular simplex at vertex `v`,
/// coordinate `i`.
pub open spec fn spec_regular_coord(n: int, v: int, i: int) -> i64 {
    if v == n {
        spec_plus_one_coord(n)
    } else if v == i {
        spec_diag_coord(n)
    } else {
        spec_base_coord(n)
    }
}

/// The origin-centered regular simplex scaled by `scale` and translated to
/// `center`, coordinate by coordinate with saturating arithmetic.
pub fn regular_simplex_centered_at<const N: usize>(scale: i64, center: [i64; N]) -> (output:
    Simplex<N>)
    requires
        1 <= N <= 16384,
    ensures
        forall|v: int, i: int|
            0 <= v <= N && 0 <= i < N ==> output.spec_point(v)@[i] == spec_sat_add(
                spec_fix_mul(spec_regular_coord(N as int, v, i), scale),
                center@[i],
            ),
{
    let mut output = regular_simplex::<N>();

    let mut vertex_index: usize = 0;
    while vertex_index < N + 1
        invariant
            1 <= N <= 16384,
            vertex_index <= N + 1,
            forall|v: int, i: int|
                0 <= v < vertex_index && 0 <= i < N ==> output.spec_point(v)@[i]
                    == spec_sat_add(
                    spec_fix_mul(spec_regular_coord(N as int, v, i), scale),
                    center@[i],
                ),
            forall|v: int, i: int|
                vertex_index <= v <= N && 0 <= i < N ==> output.spec_point(v)@[i]
                    == spec_regular_coord(N as int, v, i),
        decreases N + 1 - vertex_index,
    {
        let mut point = output.point(vertex_index);
        let mut i: usize = 0;
        while i < N
            invariant
                1 <= N <= 16384,
                vertex_index <= N,
                i <= N,
                point@.len() == N,
                forall|j: int|
                    0 <= j < i ==> point@[j] == spec_sat_add(
                        spec_fix_mul(
                            spec_regular_coord(N as int, vertex_index as int, j),
                            scale,
                        ),
                        center@[j],
                    ),
                forall|j: int|
                    i <= j < N ==> point@[j] == spec_regular_coord(
                        N as int,
                        vertex_index as int,
                        j,
                    ),
            decreases N - i,
        {
            point[i] = sat_add(fix_mul(point[i], scale), center[i]);
            i = i + 1;
        }
        output.set_point(vertex_index, point);
        vertex_index = vertex_index + 1;
    }

    output
}

/// The least objective value among a run of recorded calls.
pub open spec fn seq_min_y<const N: usize>(s: Seq<Call<N>>) -> int
    decreases s.len(),
{
    if s.len() == 0 {
        0
    } else if s.len() == 1 {
        s[0].y as int
    } else {
        let rest = seq_min_y(s.drop_last());
        if (s.last().y as int) < rest {
            s.last().y as int
        } else {
            rest
        }
    }
}

/// The least value is attained and bounds every element.
pub proof fn lemma_seq_min_y<const N: usize>(s: Seq<Call<N>>)
    requires
        s.len() >= 1,
    ensures
        exists|i: int| 0 <= i < s.len() && (#[trigger] s[i]).y as int == seq_min_y(s),
        forall|i: int| 0 <= i < s.len() ==> seq_min_y(s) <= (#[trigger] s[i]).y as int,
    decreases s.len(),
{
    if s.len() == 1 {
        assert(s[0].y as int == seq_min_y(s));
    }
    if s.len() > 1 {
        lemma_seq_min_y(s.drop_last());
        if (s.last().y as int) < seq_min_y(s.drop_last()) {
            assert(s[s.len() - 1].y as int == seq_min_y(s));
        } else {
            let w = choose|i: int|
                0 <= i < s.drop_last().len() && (#[trigger] s.drop_last()[i]).y as int
                    == seq_min_y(s.drop_last());
            assert(s[w].y as int == seq_min_y(s));
        }
        assert forall|i: int| 0 <= i < s.len() implies seq_min_y(s) <= (#[trigger] s[i]).y
            as int by {
            if i < s.len() - 1 {
                assert(s.drop_last()[i] == s[i]);
            }
        }
    }
}

/// Every recorded call is a genuine input-output pair of the objective.
pub open spec fn calls_valid<const N: usize, F: Fn([i64; N]) -> i64>(
    f: F,
    s: Seq<Call<N>>,
) -> bool {
    forall|i: int| 0 <= i < s.len() ==> call_ensures(f, ((#[trigger] s[i]).xs,), s[i].y)
}

/// The point `x_c * (1 + alpha) - alpha * x_h`, coordinate by coordinate
/// in saturating fixed-point arithmetic: the reflection of the worst
/// vertex through the centroid, for the various Nelder-Mead coefficients.
fn step_point<const N: usize>(x_c: &[i64; N], x_h: &[i64; N], alpha: i64) -> (r: [i64; N])
    ensures
        forall|j: int|
            0 <= j < N ==> r@[j] == spec_sat_sub(
                spec_fix_mul(x_c@[j], spec_sat_add(65536, alpha)),
                spec_fix_mul(alpha, x_h@[j]),
            ),
{
    let one_plus_alpha = sat_add(65536, alpha);
    let mut output: [i64; N] = array_fill_for_copy_types(0);
    let mut j: usize = 0;
    while j < N
        invariant
            j <= N,
            output@.len() == N,
            one_plus_alpha == spec_sat_add(65536, alpha),
            forall|t: int|
                0 <= t < j ==> output@[t] == spec_sat_sub(
                    spec_fix_mul(x_c@[t], spec_sat_add(65536, alpha)),
                    spec_fix_mul(alpha, x_h@[t]),
                ),
        decreases N - j,
    {
        output[j] = sat_sub(fix_mul(x_c[j], one_plus_alpha), fix_mul(alpha, x_h[j]));
        j = j + 1;
    }
    output
}

/// Finds a minimum of the objective within the region the initial simplex
/// explores, running a fixed number of Nelder-Mead iterations: order the
/// vertices, reflect the worst through the centroid of the rest, and
/// expand, contract or shrink depending on where the reflected value
/// falls. The returned pair is a genuine call of the objective.
///
/// If in doubt what to pass for the simplex, use
/// `regular_simplex_centered_at(scale, center)` where `center` is a best
/// guess for the minimum and `scale` is large enough that the simplex
/// covers it.
pub fn minimize<const N: usize, F: Fn([i64; N]) -> i64>(
    f: F,
    initial_simplex: Simplex<N>,
    iters: u16,
) -> (r: Call<N>)
    requires
        1 <= N <= 16384,
        forall|x: [i64; N]| call_requires(f, (x,)),
    ensures
        call_ensures(f, (r.xs,), r.y),
        iters == 0 ==> r.xs == initial_simplex.spec_point(0),
        (iters >= 1 && (forall|x: [i64; N], y1: i64, y2: i64|
            call_ensures(f, (x,), y1) && call_ensures(f, (x,), y2) ==> y1 == y2)) ==> (forall|
            v: int,
            y: i64,
        |
            0 <= v <= N && call_ensures(f, (initial_simplex.spec_point(v),), y) ==> r.y <= y),
{
    let mut s: Vec<Call<N>> = Vec::new();
    let mut i: usize = 0;
    while i < N + 1
        invariant
            1 <= N <= 16384,
            i <= N + 1,
            s@.len() == i,
            forall|x: [i64; N]| call_requires(f, (x,)),
            calls_valid(f, s@),
            forall|j: int| 0 <= j < i ==> (#[trigger] s@[j]).xs == initial_simplex.spec_point(j),
        decreases N + 1 - i,
    {
        let xs = initial_simplex.point(i);
        let y = f(xs);
        s.push(Call { xs, y });
        i = i + 1;
    }

    let ghost init_calls = s@;
    let ghost best0 = seq_min_y(init_calls);
    proof {
        lemma_seq_min_y(init_calls);
    }

    let n_fix: i64 = (N as i64) * 65536;

    let mut k: u16 = 0;
    while k < iters
        invariant
            1 <= N <= 16384,
            s@.len() == N + 1,
            n_fix == N as i64 * 65536,
            forall|x: [i64; N]| call_requires(f, (x,)),
            calls_valid(f, s@),
            best0 == seq_min_y(init_calls),
            exists|i: int| 0 <= i < s@.len() && (#[trigger] s@[i]).y as int <= best0,
            k >= 1 ==> s@[0].y as int <= best0,
            iters == 0 ==> s@ == init_calls,
        decreases iters - k,
    {
        // Order the vertices by objective value (selection sort).
        let mut a: usize = 0;
        while a < N + 1
            invariant
                1 <= N <= 16384,
                s@.len() == N + 1,
                a <= N + 1,
                calls_valid(f, s@),
                best0 == seq_min_y(init_calls),
                exists|i: int| 0 <= i < s@.len() && (#[trigger] s@[i]).y as int <= best0,
                forall|p: int, q: int| 0 <= p < q < a ==> s@[p].y <= s@[q].y,
                forall|p: int, q: int|
                    0 <= p < a && a <= q < s@.len() ==> s@[p].y <= s@[q].y,
            decreases N + 1 - a,
        {
            let mut m: usize = a;
            let mut b: usize = a + 1;
            while b < N + 1
                invariant
                    1 <= N <= 16384,
                    s@.len() == N + 1,
                    a <= m < b <= N + 1,
                    forall|t: int| a as int <= t && t < b as int ==> s@[m as int].y <= s@[t].y,
                decreases N + 1 - b,
            {
                if s[b].y < s[m].y {
                    m = b;
                }
                b = b + 1;
            }
            let tmp = s[a];
            let sm = s[m];
            let ghost pre_swap = s@;
            s.set(a, sm);
            s.set(m, tmp);
            proof {
                assert(exists|i: int|
                    0 <= i < pre_swap.len() && (#[trigger] pre_swap[i]).y as int <= best0);
                let w = choose|i: int|
                    0 <= i < pre_swap.len() && (#[trigger] pre_swap[i]).y as int <= best0;
                assert(s@ == pre_swap.update(a as int, pre_swap[m as int]).update(
                    m as int,
                    pre_swap[a as int],
                ));
                if w == a as int {
                    assert(s@[m as int] == pre_swap[a as int]);
                    assert(s@[m as int].y as int <= best0);
                } else if w == m as int {
                    assert(s@[a as int] == pre_swap[m as int]);
                    assert(s@[a as int].y as int <= best0);
                } else {
                    assert(s@[w] == pre_swap[w]);
                    assert(s@[w].y as int <= best0);
                }
            }
            a = a + 1;
        }
        proof {
            let w = choose|i: int|
                0 <= i < s@.len() && (#[trigger] s@[i]).y as int <= best0;
            assert(s@[0].y <= s@[w].y);
            assert(s@[0].y as int <= best0);
        }

        let x_1 = s[0].xs;
        let f_1 = s[0].y;
        let f_n = s[N - 1].y;
        let f_n_1 = s[N].y;

        let x_h_k = s[N].xs;

        // The centroid of all but the worst vertex.
        let mut x_c: [i64; N] = array_fill_for_copy_types(0);
        let mut ci: usize = 0;
        while ci < N
            invariant
                1 <= N <= 16384,
                s@.len() == N + 1,
                n_fix == N as i64 * 65536,
                ci <= N,
                x_c@.len() == N,
            decreases N - ci,
        {
            let mut acc: i64 = 0;
            let mut vi: usize = 0;
            while vi < N
                invariant
                    s@.len() == N + 1,
                    vi <= N,
                    ci < N,
                decreases N - vi,
            {
                acc = sat_add(acc, s[vi].xs[ci]);
                vi = vi + 1;
            }
            x_c[ci] = fix_div(acc, n_fix);
            ci = ci + 1;
        }

        // Reflect.
        let x_r = step_point(&x_c, &x_h_k, 65536);
        let f_r = f(x_r);

        if f_1 <= f_r && f_r < f_n {
            s.set(N, Call { xs: x_r, y: f_r });
        }

        // Expand.
        let x_e = step_point(&x_c, &x_h_k, 131072);
        let f_e = f(x_e);

        if f_r < f_1 && f_e < f_r {
            s.set(N, Call { xs: x_e, y: f_e });
        } else if f_r < f_1 && f_r <= f_e {
            s.set(N, Call { xs: x_r, y: f_r });
        }

        // Contract outside.
        let x_oc = step_point(&x_c, &x_h_k, 32768);
        let f_oc = f(x_oc);

        if f_n <= f_r && f_r < f_n_1 && f_oc <= f_r {
            s.set(N, Call { xs: x_oc, y: f_oc });
        }

        // Contract inside.
        let x_ic = step_point(&x_c, &x_h_k, -32768);
        let f_ic = f(x_ic);

        if f_r >= f_n_1 && f_ic < f_n_1 && f_oc <= f_r {
            s.set(N, Call { xs: x_ic, y: f_ic });
        }

        // Shrink.
        let better_of = if f_r < f_ic {
            f_r
        } else {
            f_ic
        };
        if (f_n <= f_r && f_r < f_n_1 && f_oc > f_r) || better_of >= f_n_1 {
            // The best vertex is its own midpoint with itself, so it is
            // kept as it stands rather than re-evaluated.
            let mut si: usize = 1;
            while si < N + 1
                invariant
                    1 <= N <= 16384,
                    s@.len() == N + 1,
                    1 <= si <= N + 1,
                    forall|x: [i64; N]| call_requires(f, (x,)),
                    calls_valid(f, s@),
                    best0 == seq_min_y(init_calls),
                    s@[0].y as int <= best0,
                decreases N + 1 - si,
            {
                let mut xs = x_1;
                let mut j: usize = 0;
                while j < N
                    invariant
                        j <= N,
                        s@.len() == N + 1,
                        si < N + 1,
                        xs@.len() == N,
                    decreases N - j,
                {
                    xs[j] = half(sat_add(xs[j], s[si].xs[j]));
                    j = j + 1;
                }
                let y = f(xs);
                s.set(si, Call { xs, y });
                si = si + 1;
            }
        }

        proof {
            assert(s@[0].y as int <= best0);
            assert(exists|i: int| 0 <= i < s@.len() && (#[trigger] s@[i]).y as int <= best0)
                by {
                assert(s@[0].y as int <= best0);
            }
        }
        k = k + 1;
    }

    proof {
        if iters >= 1 && (forall|x: [i64; N], y1: i64, y2: i64|
            call_ensures(f, (x,), y1) && call_ensures(f, (x,), y2) ==> y1 == y2) {
            assert forall|v: int, y: i64|
                0 <= v <= N && call_ensures(
                    f,
                    (initial_simplex.spec_point(v),),
                    y,
                ) implies s@[0].y <= y by {
                assert(call_ensures(f, (init_calls[v].xs,), init_calls[v].y));
                assert(init_calls[v].xs == initial_simplex.spec_point(v));
                assert(y == init_calls[v].y);
                assert(seq_min_y(init_calls) <= init_calls[v].y as int);
            }
        }
    }
    s[0]
}

} // verus!
