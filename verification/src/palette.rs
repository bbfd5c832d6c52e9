//! The intensity table used to colour diverging pixels.
//!
//! Entry `i` (0-based) of a table built for `max_iterations` holds
//! `255 * sqrt((i + 1) / max_iterations)` rounded to the nearest integer,
//! halves rounding up: a square-root ramp that spreads the low iteration
//! counts over visibly distinct bright values. The rounding is stated in
//! integers only: `r = round(sqrt(q / m))` exactly when
//! `m * (2r - 1)^2 <= 4q < m * (2r + 1)^2`, with `q = 255^2 * (i + 1)`.

use vstd::prelude::*;

verus! {

/// The first candidate `r` at or above `from`, capped at 255, for which
/// `4q < m * (2r + 1)^2` — that is, for which `sqrt(q / m)` rounds to a
/// value of at most `r`.
pub open spec fn intensity_search(q: nat, m: nat, from: nat) -> nat
    decreases 255 - from,
{
    if from >= 255 {
        255
    } else if 4 * q < m * (2 * from + 1) * (2 * from + 1) {
        from
    } else {
        intensity_search(q, m, from + 1)
    }
}

/// The intensity for the ratio `n / m`: `255 * sqrt(n / m)` rounded to the
/// nearest integer, halves rounding up.
pub open spec fn palette_intensity(n: nat, m: nat) -> nat {
    intensity_search(65025 * n, m, 0)
}

proof fn lemma_search_found(q: nat, m: nat, from: nat)
    requires
        1 <= m,
        from <= 255,
        4 * q < m * 511 * 511,
        from >= 1 ==> m * (2 * from - 1) * (2 * from - 1) <= 4 * q,
    ensures
        ({
            let r = intensity_search(q, m, from);
            &&& from <= r <= 255
            &&& 4 * q < m * (2 * r + 1) * (2 * r + 1)
            &&& r >= 1 ==> m * (2 * r - 1) * (2 * r - 1) <= 4 * q
        }),
    decreases 255 - from,
{
    if from >= 255 {
        assert(m * (2 * 255 + 1) * (2 * 255 + 1) == m * 511 * 511) by (nonlinear_arith);
    } else if 4 * q < m * (2 * from + 1) * (2 * from + 1) {
    } else {
        lemma_search_found(q, m, from + 1);
    }
}

/// Law: a palette entry is the exact half-up rounding of `255 * sqrt(n/m)`.
/// Writing `r` for the entry and `q` for `255^2 * n`, the entry satisfies
/// `m * (2r - 1)^2 <= 4q < m * (2r + 1)^2` (the lower bound is waived at
/// `r = 0`), which pins `r` as the nearest integer to `sqrt(q / m)`.
pub proof fn lemma_palette_intensity_rounds(n: nat, m: nat)
    requires
        1 <= n <= m,
    ensures
        ({
            let r = palette_intensity(n, m);
            &&& r <= 255
            &&& 4 * (65025 * n) < m * (2 * r + 1) * (2 * r + 1)
            &&& r >= 1 ==> m * (2 * r - 1) * (2 * r - 1) <= 4 * (65025 * n)
        }),
{
    assert(4 * (65025 * n) < m * 511 * 511) by (nonlinear_arith)
        requires
            1 <= n <= m,
    ;
    lemma_search_found(65025 * n, m, 0);
}

/// The intensity for the ratio `n / m`, computed by walking the candidate
/// values upward until the rounding test trips.
fn intensity_for(n: usize, m: usize) -> (v: u8)
    ensures
        v as nat == palette_intensity(n as nat, m as nat),
{
    let q: u128 = 65025u128 * (n as u128);
    let mu: u128 = m as u128;
    let mut r: u128 = 0;
    while r < 255
        invariant
            r <= 255,
            q == 65025 * (n as nat),
            mu == m,
            intensity_search(65025 * (n as nat), m as nat, 0) == intensity_search(
                65025 * (n as nat),
                m as nat,
                r as nat,
            ),
        decreases 255 - r,
    {
        let t: u128 = 2 * r + 1;
        proof {
            assert(mu * t <= 0xFFFF_FFFF_FFFF_FFFFu128 * 511) by (nonlinear_arith)
                requires
                    mu <= 0xFFFF_FFFF_FFFF_FFFFu128,
                    1 <= t <= 511,
            ;
            assert(mu * t * t <= 0xFFFF_FFFF_FFFF_FFFFu128 * 511 * 511) by (nonlinear_arith)
                requires
                    mu * t <= 0xFFFF_FFFF_FFFF_FFFFu128 * 511,
                    0 <= mu,
                    1 <= t <= 511,
            ;
        }
        if 4 * q < mu * t * t {
            return r as u8;
        }
        r = r + 1;
    }
    255u8
}

/// Build the intensity table for a render with a budget of
/// `max_iterations` steps: entry `i` holds the intensity used for a pixel
/// that diverges at step `i`, the square-root ramp value for the ratio
/// `(i + 1) / max_iterations`.
pub fn build_palette(max_iterations: usize) -> (palette: Vec<u8>)
    ensures
        palette@.len() == max_iterations,
        forall|i: int|
            0 <= i < max_iterations ==> palette@[i] as nat == palette_intensity(
                (i + 1) as nat,
                max_iterations as nat,
            ),
{
    let mut palette: Vec<u8> = Vec::new();
    let mut i: usize = 0;
    while i < max_iterations
        invariant
            i <= max_iterations,
            palette@.len() == i,
            forall|j: int|
                0 <= j < i ==> palette@[j] as nat == palette_intensity(
                    (j + 1) as nat,
                    max_iterations as nat,
                ),
        decreases max_iterations - i,
    {
        let v: u8 = intensity_for(i + 1, max_iterations);
        palette.push(v);
        i = i + 1;
    }
    palette
}

} // verus!
