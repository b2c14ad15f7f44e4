//! Fixed-point money.
//!
//! Every USD amount that crosses the library's public API is an integer count of
//! pico-dollars (1e-12 USD): exact for every token price quoted to the micro-dollar
//! per million tokens, and free of floating-point drift. The budget ledger keeps
//! its own coarser unit (1e-4 USD), as the runtime always has.
use vstd::prelude::*;
use vstd::arithmetic::div_mod::{lemma_fundamental_div_mod, lemma_fundamental_div_mod_converse};

verus! {

/// An amount of money in pico-dollars (1e-12 USD).
pub type PicoUsd = u128;

/// Pico-dollars in one US dollar.
pub const PICO_PER_USD: u128 = 1_000_000_000_000;

/// Ledger units per US dollar: the ledger counts hundredths of a cent.
pub const PRECISION: u64 = 10_000;

/// Pico-dollars in one ledger unit.
pub const PICO_PER_RAW: u128 = 100_000_000;

/// Fixed-point scale of the safety margin (12_000 stands for 1.2).
pub const MARGIN_SCALE: u64 = 10_000;

/// `x / d` rounded to the nearest integer, halves away from zero (`x >= 0`).
pub open spec fn round_div(x: int, d: int) -> int {
    (x + d / 2) / d
}

/// Saturation at the top of `u64`, as a float-to-`u64` cast saturates.
pub open spec fn clamp_u64(x: int) -> int {
    if x > u64::MAX { u64::MAX as int } else { x }
}

/// Saturation at the top of `u128`.
pub open spec fn clamp_u128(x: int) -> int {
    if x > u128::MAX { u128::MAX as int } else { x }
}

/// margin × amount, for a margin in fixed point over [`MARGIN_SCALE`], rounded
/// to the nearest pico-dollar and saturating at the top of `u128`.
pub open spec fn margin_of(margin: int, pico: int) -> int {
    clamp_u128(round_div(margin * pico, MARGIN_SCALE as int))
}

/// Subtraction that stops at zero.
pub open spec fn sat_sub(a: int, b: int) -> int {
    if a >= b { a - b } else { 0 }
}

/// A pico-dollar amount in ledger units, rounded to the nearest unit.
pub open spec fn usd_to_raw(pico: int) -> int {
    clamp_u64(round_div(pico, PICO_PER_RAW as int))
}

/// A ledger amount in pico-dollars.
pub open spec fn raw_to_usd(raw: int) -> int {
    raw * PICO_PER_RAW as int
}

/// `x / d` rounded to the nearest integer, halves up.
pub fn round_div_u128(x: u128, d: u128) -> (r: u128)
    requires
        d > 0,
    ensures
        r == round_div(x as int, d as int),
{
    let q = x / d;
    let rem = x % d;
    let h = d / 2;
    proof {
        lemma_fundamental_div_mod(x as int, d as int);
        assert(x as int == d as int * (x as int / d as int) + (x as int % d as int));
        assert(x as int == q as int * d as int + rem as int) by (nonlinear_arith)
            requires
                x as int == d as int * (x as int / d as int) + (x as int % d as int),
                q as int == x as int / d as int,
                rem as int == x as int % d as int,
        ;
        assert(q as int * d as int <= x as int) by (nonlinear_arith)
            requires
                x as int == q as int * d as int + rem as int,
                rem >= 0,
        ;
    }
    if rem >= d - h {
        proof {
            let xi = x as int + h as int;
            assert(xi == (q as int + 1) * d as int + (rem as int + h as int - d as int))
                by (nonlinear_arith)
                requires
                    x as int == q as int * d as int + rem as int,
                    xi == x as int + h as int,
            ;
            lemma_fundamental_div_mod_converse(
                xi,
                d as int,
                q as int + 1,
                rem as int + h as int - d as int,
            );
            assert(q < u128::MAX) by (nonlinear_arith)
                requires
                    q as int * d as int <= x as int,
                    d >= 1,
                    rem >= d - h,
                    h == d / 2,
                    rem < d,
            ;
        }
        q + 1
    } else {
        proof {
            let xi = x as int + h as int;
            assert(xi == q as int * d as int + (rem as int + h as int)) by (nonlinear_arith)
                requires
                    x as int == q as int * d as int + rem as int,
                    xi == x as int + h as int,
            ;
            lemma_fundamental_div_mod_converse(xi, d as int, q as int, rem as int + h as int);
        }
        q
    }
}

/// A pico-dollar amount in ledger units (rounded, saturating).
pub fn pico_to_raw(pico: PicoUsd) -> (r: u64)
    ensures
        r == usd_to_raw(pico as int),
{
    let q = round_div_u128(pico, PICO_PER_RAW);
    if q > u64::MAX as u128 {
        u64::MAX
    } else {
        q as u64
    }
}

/// A ledger amount in pico-dollars.
pub fn raw_to_pico(raw: u64) -> (r: PicoUsd)
    ensures
        r == raw_to_usd(raw as int),
{
    assert(raw as int * PICO_PER_RAW as int <= u64::MAX as int * 100_000_000) by (nonlinear_arith)
        requires
            raw <= u64::MAX,
    ;
    raw as u128 * PICO_PER_RAW
}

/// margin × amount in pico-dollars (margin in fixed point over
/// [`MARGIN_SCALE`]), rounded, saturating at the top of `u128`.
pub fn margin_times(margin: u64, pico: PicoUsd) -> (r: PicoUsd)
    ensures
        r == margin_of(margin as int, pico as int),
{
    let d: u128 = MARGIN_SCALE as u128;
    let q = pico / d;
    let rem = pico % d;
    let m = margin as u128;
    assert(rem < 10_000);
    assert(m as int * rem as int <= u64::MAX as int * 10_000) by (nonlinear_arith)
        requires
            m <= u64::MAX,
            rem < 10_000,
    ;
    let low = round_div_u128(m * rem, d);
    proof {
        lemma_fundamental_div_mod(pico as int, 10_000);
        let x = margin as int * pico as int;
        assert(x == margin as int * q as int * 10_000 + margin as int * rem as int) by (nonlinear_arith)
            requires
                x == margin as int * pico as int,
                pico as int == 10_000 * q as int + rem as int,
        ;
        let y = margin as int * rem as int + 5_000;
        lemma_fundamental_div_mod(y, 10_000);
        lemma_fundamental_div_mod_converse(
            x + 5_000,
            10_000,
            margin as int * q as int + y / 10_000,
            y % 10_000,
        );
        assert(round_div(x, 10_000) == margin as int * q as int + low as int);
    }
    match m.checked_mul(q) {
        Some(high) => match high.checked_add(low) {
            Some(t) => t,
            None => u128::MAX,
        },
        None => {
            assert(m as int * q as int > u128::MAX);
            u128::MAX
        },
    }
}

} // verus!
