//! Bounded escape-time evaluation of the quadratic recurrence `z <- z*z + c`.
//!
//! The orbit starts at zero. Before each step the squared modulus of `z` is
//! compared against the escape threshold `4.0` (the standard escape radius
//! of 2); if it is exceeded, the point diverges at the current counter
//! value. If the budget runs out first, the point is reported as
//! non-diverging with a count equal to the budget.

use crate::complex::{Complex, COORD_MAX, SCALE};
use vstd::arithmetic::div_mod::lemma_fundamental_div_mod;
use vstd::prelude::*;

verus! {

/// Outcome of one escape-time evaluation: whether the orbit escaped, and
/// at which iteration it did (or the full budget if it never did).
#[derive(Clone, Copy, Debug, PartialEq, Eq, Structural)]
pub struct IterationResult {
    pub diverge: bool,
    pub iterations: usize,
}

/// The orbit value `z` lies past the escape radius: its squared modulus
/// (in units of `SCALE * SCALE`) exceeds 4.0.
pub open spec fn escaped(z: (int, int)) -> bool {
    z.0 * z.0 + z.1 * z.1 > 4 * (SCALE as int) * (SCALE as int)
}

/// One step of the recurrence in fixed point: `z*z + c`, with the products
/// rescaled by a floor division by `SCALE`.
pub open spec fn step(z: (int, int), c: (int, int)) -> (int, int) {
    (
        (z.0 * z.0 - z.1 * z.1) / (SCALE as int) + c.0,
        (z.0 * z.1 + z.1 * z.0) / (SCALE as int) + c.1,
    )
}

/// Escape-time run starting from orbit value `z` with `budget` steps left:
/// whether the orbit escapes within the budget, and how many steps are
/// consumed before the escape test trips (the whole budget if it never
/// does). The test precedes the update, and is not reached at budget zero.
pub open spec fn run(z: (int, int), c: (int, int), budget: nat) -> (bool, nat)
    decreases budget,
{
    if budget == 0 {
        (false, 0nat)
    } else if escaped(z) {
        (true, 0nat)
    } else {
        let tail = run(step(z, c), c, (budget - 1) as nat);
        (tail.0, (tail.1 + 1) as nat)
    }
}

/// What the evaluator reports for the point `c` under a budget of
/// `max_iterations` steps: the run from the zero orbit value.
pub open spec fn outcome(c: (int, int), max_iterations: nat) -> (bool, nat) {
    run((0, 0), c, max_iterations)
}

/// Range every orbit value stays in: the escape test bounds the value that
/// was squared, so a freshly updated value is at most `4.0` plus the
/// magnitude of `c` away from zero.
pub open spec fn orbit_bounded(z: (int, int)) -> bool {
    &&& -(4 * (SCALE as int) + COORD_MAX) <= z.0 <= 4 * (SCALE as int) + COORD_MAX
    &&& -(4 * (SCALE as int) + COORD_MAX) <= z.1 <= 4 * (SCALE as int) + COORD_MAX
}

/// A run consumes fewer steps than its budget when it escapes, and exactly
/// its budget when it does not.
pub proof fn lemma_run_bounds(z: (int, int), c: (int, int), budget: nat)
    ensures
        run(z, c, budget).0 ==> run(z, c, budget).1 < budget,
        !run(z, c, budget).0 ==> run(z, c, budget).1 == budget,
    decreases budget,
{
    if budget > 0 && !escaped(z) {
        lemma_run_bounds(step(z, c), c, (budget - 1) as nat);
    }
}

/// An orbit value that has not escaped has coordinates of magnitude at most
/// `2 * SCALE`, and the next step stays within [`orbit_bounded`].
proof fn lemma_step_bounds(z: (int, int), c: (int, int))
    requires
        !escaped(z),
        -COORD_MAX <= c.0 <= COORD_MAX,
        -COORD_MAX <= c.1 <= COORD_MAX,
    ensures
        -2 * (SCALE as int) <= z.0 <= 2 * (SCALE as int),
        -2 * (SCALE as int) <= z.1 <= 2 * (SCALE as int),
        orbit_bounded(step(z, c)),
{
    let s: int = SCALE as int;
    assert(-2 * s <= z.0 <= 2 * s && -2 * s <= z.1 <= 2 * s) by (nonlinear_arith)
        requires
            z.0 * z.0 + z.1 * z.1 <= 4 * s * s,
            s > 0,
    ;
    let num_re: int = z.0 * z.0 - z.1 * z.1;
    let num_im: int = z.0 * z.1 + z.1 * z.0;
    assert(-(4 * s * s) <= num_re <= 4 * s * s && -(4 * s * s) <= num_im <= 4 * s * s)
        by (nonlinear_arith)
        requires
            num_re == z.0 * z.0 - z.1 * z.1,
            num_im == z.0 * z.1 + z.1 * z.0,
            z.0 * z.0 + z.1 * z.1 <= 4 * s * s,
    ;
    lemma_fundamental_div_mod(num_re, s);
    lemma_fundamental_div_mod(num_im, s);
    assert(-(4 * s) <= num_re / s <= 4 * s) by (nonlinear_arith)
        requires
            num_re == s * (num_re / s) + num_re % s,
            0 <= num_re % s < s,
            -(4 * s * s) <= num_re <= 4 * s * s,
            s == SCALE as int,
            SCALE == 0x1_0000_0000,
    ;
    assert(-(4 * s) <= num_im / s <= 4 * s) by (nonlinear_arith)
        requires
            num_im == s * (num_im / s) + num_im % s,
            0 <= num_im % s < s,
            -(4 * s * s) <= num_im <= 4 * s * s,
            s == SCALE as int,
            SCALE == 0x1_0000_0000,
    ;
}

/// Run the bounded escape-time iteration for the point `c`. Reports whether
/// the orbit of `z <- z*z + c` (from `z = 0`) escapes the radius-2 region
/// within `max_iterations` steps, and at which step the escape test
/// tripped; a non-diverging point reports a count of exactly
/// `max_iterations`. A zero budget reports non-divergence with count zero.
pub fn iterate(c: Complex, max_iterations: usize) -> (r: IterationResult)
    requires
        c.wf(),
    ensures
        iterate_post(c, max_iterations as nat, r),
        r.iterations <= max_iterations,
{
    let mut diverge: bool = false;
    let mut iterations: usize = 0;
    let mut z: Complex = Complex::new(0, 0);
    while iterations < max_iterations && !diverge
        invariant
            c.wf(),
            iterations <= max_iterations,
            orbit_bounded(z@),
            if diverge {
                outcome(c@, max_iterations as nat) == (true, iterations as nat)
            } else {
                outcome(c@, max_iterations as nat).0 == run(
                    z@,
                    c@,
                    (max_iterations - iterations) as nat,
                ).0 && outcome(c@, max_iterations as nat).1 == run(
                    z@,
                    c@,
                    (max_iterations - iterations) as nat,
                ).1 + iterations
            },
        decreases max_iterations - iterations + (if diverge { 0int } else { 1int }),
    {
        let msq: i128 = z.modulus_squared();
        if msq > 4 * (SCALE as i128) * (SCALE as i128) {
            diverge = true;
            proof {
                assert(run(z@, c@, (max_iterations - iterations) as nat) == (true, 0nat));
            }
        } else {
            proof {
                lemma_step_bounds(z@, c@);
            }
            let zn: Complex = z.mul(z).add(c);
            proof {
                assert(zn@ == step(z@, c@));
                assert(run(z@, c@, (max_iterations - iterations) as nat) == {
                    let tail = run(zn@, c@, (max_iterations - iterations - 1) as nat);
                    (tail.0, (tail.1 + 1) as nat)
                });
            }
            z = zn;
            iterations = iterations + 1;
        }
    }
    proof {
        if !diverge {
            assert(run(z@, c@, 0nat) == (false, 0nat));
        }
        lemma_run_bounds((0, 0), c@, max_iterations as nat);
    }
    IterationResult { diverge: diverge, iterations: iterations }
}

/// The contract of [`iterate`], as a predicate: what the evaluator reports
/// for the point `c` under the budget `max_iterations`.
pub open spec fn iterate_post(c: Complex, max_iterations: nat, r: IterationResult) -> bool {
    &&& r.diverge == outcome(c@, max_iterations).0
    &&& r.iterations == outcome(c@, max_iterations).1
}

/// Law: the evaluator is a pure function of the point and the budget. Two
/// results that both meet its contract on the same inputs are equal, so
/// re-running the evaluator always yields the identical outcome.
pub proof fn lemma_iterate_deterministic(
    c: Complex,
    max_iterations: nat,
    r1: IterationResult,
    r2: IterationResult,
)
    requires
        iterate_post(c, max_iterations, r1),
        iterate_post(c, max_iterations, r2),
    ensures
        r1 == r2,
{
}

/// A run that escapes within a smaller budget behaves identically under any
/// larger budget: it still escapes, at the same step.
proof fn lemma_run_monotonic(z: (int, int), c: (int, int), b1: nat, b2: nat)
    requires
        b1 <= b2,
        run(z, c, b1).0,
    ensures
        run(z, c, b2) == run(z, c, b1),
    decreases b1,
{
    if b1 > 0 && !escaped(z) {
        lemma_run_monotonic(step(z, c), c, (b1 - 1) as nat, (b2 - 1) as nat);
    }
}

/// Law: raising the iteration budget never converts a divergent outcome
/// into non-divergence, and never changes the step at which a point that
/// already diverged under the smaller budget is reported to diverge.
pub proof fn lemma_iterate_monotonic(c: (int, int), m1: nat, m2: nat)
    requires
        m1 <= m2,
        outcome(c, m1).0,
    ensures
        outcome(c, m2).0,
        outcome(c, m2).1 == outcome(c, m1).1,
{
    lemma_run_monotonic((0, 0), c, m1, m2);
}

/// An orbit value with both coordinates of magnitude at most `SCALE / 8`
/// never escapes when `c` has both coordinates of magnitude at most
/// `SCALE / 16`: one step keeps the orbit inside the same box.
proof fn lemma_small_run(z: (int, int), c: (int, int), budget: nat)
    requires
        -(SCALE as int) / 16 <= c.0 <= (SCALE as int) / 16,
        -(SCALE as int) / 16 <= c.1 <= (SCALE as int) / 16,
        -(SCALE as int) / 8 <= z.0 <= (SCALE as int) / 8,
        -(SCALE as int) / 8 <= z.1 <= (SCALE as int) / 8,
    ensures
        run(z, c, budget) == (false, budget),
    decreases budget,
{
    let s: int = SCALE as int;
    assert(z.0 * z.0 + z.1 * z.1 <= 4 * s * s) by (nonlinear_arith)
        requires
            -s / 8 <= z.0 <= s / 8,
            -s / 8 <= z.1 <= s / 8,
            s == 0x1_0000_0000,
    ;
    assert(!escaped(z));
    if budget > 0 {
        let num_re: int = z.0 * z.0 - z.1 * z.1;
        let num_im: int = z.0 * z.1 + z.1 * z.0;
        assert(-(s * s) / 32 <= num_re <= (s * s) / 32 && -(s * s) / 32 <= num_im <= (s * s) / 32)
            by (nonlinear_arith)
            requires
                num_re == z.0 * z.0 - z.1 * z.1,
                num_im == z.0 * z.1 + z.1 * z.0,
                -s / 8 <= z.0 <= s / 8,
                -s / 8 <= z.1 <= s / 8,
                s == 0x1_0000_0000,
        ;
        lemma_fundamental_div_mod(num_re, s);
        lemma_fundamental_div_mod(num_im, s);
        assert(-s / 32 - 1 <= num_re / s <= s / 32 && -s / 32 - 1 <= num_im / s <= s / 32)
            by (nonlinear_arith)
            requires
                num_re == s * (num_re / s) + num_re % s,
                0 <= num_re % s < s,
                num_im == s * (num_im / s) + num_im % s,
                0 <= num_im % s < s,
                -(s * s) / 32 <= num_re <= (s * s) / 32,
                -(s * s) / 32 <= num_im <= (s * s) / 32,
                s == 0x1_0000_0000,
        ;
        lemma_small_run(step(z, c), c, (budget - 1) as nat);
    }
}

/// Law: a point with both coordinates of magnitude at most `SCALE / 16`
/// (0.0625 in real terms — a box inside the filled main cardioid) never
/// diverges: its orbit stays bounded, and the evaluator reports
/// non-divergence with a count equal to the full budget, whatever the
/// budget.
pub proof fn lemma_small_point_never_diverges(c: (int, int), max_iterations: nat)
    requires
        -(SCALE as int) / 16 <= c.0 <= (SCALE as int) / 16,
        -(SCALE as int) / 16 <= c.1 <= (SCALE as int) / 16,
    ensures
        outcome(c, max_iterations) == (false, max_iterations),
{
    lemma_small_run((0, 0), c, max_iterations);
}

/// Law: the origin never diverges: the evaluator reports non-divergence
/// with a count equal to the full budget, whatever the budget.
pub proof fn lemma_origin_never_diverges(max_iterations: nat)
    ensures
        outcome((0, 0), max_iterations) == (false, max_iterations),
{
    lemma_small_point_never_diverges((0, 0), max_iterations);
}

/// Law: a point already past the escape radius is reported divergent at
/// step 1 by any budget of at least 2: the first test sees the zero orbit
/// value, the second sees the point itself.
pub proof fn lemma_far_point_diverges(c: (int, int), max_iterations: nat)
    requires
        escaped(c),
        max_iterations >= 2,
    ensures
        outcome(c, max_iterations) == (true, 1nat),
{
    let s: int = SCALE as int;
    assert(0int / s == 0) by (nonlinear_arith)
        requires
            s > 0,
    ;
    assert(!escaped((0, 0))) by (nonlinear_arith)
        requires
            s > 0,
    ;
    assert(step((0, 0), c) == c);
    assert(run(c, c, (max_iterations - 1) as nat) == (true, 0nat));
}

} // verus!
