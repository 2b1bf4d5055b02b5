use foodsim::fixed::{fix_mul, fix_sqrt, FIX_ONE};
use foodsim::minimize::{minimize, regular_simplex, regular_simplex_centered_at, Simplex};

fn dist_from_0(point: &[i64]) -> i64 {
    let sum: i64 = point.iter().map(|x| fix_mul(*x, *x)).sum();
    fix_sqrt(sum)
}

fn approx_eq(a: i64, b: i64) {
    // A handful of fixed-point units, the analogue of a 1e-4 float
    // tolerance at this resolution.
    assert!((a - b).abs() < 8, "{a} vs {b}");
}

#[test]
fn in_1d() {
    let output: Simplex<1> = regular_simplex::<1>();

    let first_dist = dist_from_0(&output.plus_one);

    assert!(first_dist != 0);

    for i in 0..output.n.len() {
        approx_eq(dist_from_0(&output.n[i]), first_dist);
    }
}

#[test]
fn in_2d() {
    let output: Simplex<2> = regular_simplex::<2>();

    let first_dist = dist_from_0(&output.plus_one);

    assert!(first_dist != 0);

    for i in 0..output.n.len() {
        approx_eq(dist_from_0(&output.n[i]), first_dist);
    }
}

fn assert_converged_to_zero(result: foodsim::minimize::Call<1>) {
    // Close enough to the optimum that the quantised objective is exactly
    // zero: within 1/256 of the true minimum at 0.
    assert_eq!(result.y, 0, "objective not minimised: {:?}", result);
    assert!(result.xs[0].abs() <= 256, "argument far from 0: {:?}", result);
}

#[test]
fn on_x_squared() {
    // Start on the answer.
    assert_converged_to_zero(minimize::<1, _>(
        |[x]: [i64; 1]| fix_mul(x, x),
        regular_simplex_centered_at(FIX_ONE, [0]),
        100,
    ));

    // Start such that the initial simplex contains the answer.
    assert_converged_to_zero(minimize::<1, _>(
        |[x]: [i64; 1]| fix_mul(x, x),
        regular_simplex_centered_at(2 * FIX_ONE, [FIX_ONE]),
        100,
    ));

    // Start further away.
    assert_converged_to_zero(minimize::<1, _>(
        |[x]: [i64; 1]| fix_mul(x, x),
        regular_simplex_centered_at(4 * FIX_ONE, [-2 * FIX_ONE]),
        100,
    ));
}

#[test]
fn on_shifted_parabola_in_2d() {
    // Minimise (x - 1)^2 + (y + 2)^2; the optimum is at (1, -2).
    let f = |[x, y]: [i64; 2]| {
        let dx = x - FIX_ONE;
        let dy = y + 2 * FIX_ONE;
        fix_mul(dx, dx) + fix_mul(dy, dy)
    };
    let result = minimize::<2, _>(f, regular_simplex_centered_at(4 * FIX_ONE, [0, 0]), 200);
    assert_eq!(result.y, 0, "{:?}", result);
    assert!((result.xs[0] - FIX_ONE).abs() <= 512, "{:?}", result);
    assert!((result.xs[1] + 2 * FIX_ONE).abs() <= 512, "{:?}", result);
}

#[test]
fn zero_iterations_return_the_first_vertex() {
    let simplex = regular_simplex_centered_at::<1>(FIX_ONE, [3 * FIX_ONE]);
    let result = minimize::<1, _>(|[x]: [i64; 1]| fix_mul(x, x), simplex, 0);
    assert_eq!(result.xs[0], simplex.n[0][0]);
    assert_eq!(result.y, fix_mul(simplex.n[0][0], simplex.n[0][0]));
}

#[test]
fn result_never_regresses_past_the_best_initial_vertex() {
    let f = |[x]: [i64; 1]| fix_mul(x - 3 * FIX_ONE, x - 3 * FIX_ONE);
    let simplex = regular_simplex_centered_at::<1>(2 * FIX_ONE, [FIX_ONE]);
    let best_initial = (0..2)
        .map(|v| {
            let xs = if v == 1 { simplex.plus_one } else { simplex.n[0] };
            f(xs)
        })
        .min()
        .unwrap();
    let result = minimize::<1, _>(f, simplex, 25);
    assert!(result.y <= best_initial);
}

#[test]
fn simplex_len_counts_the_extra_vertex() {
    let s: Simplex<3> = regular_simplex::<3>();
    assert_eq!(s.len(), 4);
    let c = regular_simplex_centered_at::<2>(FIX_ONE, [100, 200]);
    assert_eq!(c.len(), 3);
}
