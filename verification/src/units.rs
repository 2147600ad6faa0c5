//! Exact integer temperature arithmetic.
//!
//! Raw readings arrive in milli-degrees Celsius. Display values are kept in
//! fifths of a milli-degree of the configured display unit, so that the
//! Fahrenheit conversion `f = c * 9/5 + 32` is exact on integers: a raw
//! reading of `c` milli-degrees Celsius becomes `5 * c` display units under
//! Celsius and `9 * c + 160000` display units under Fahrenheit.

use vstd::prelude::*;
use vstd::arithmetic::div_mod::{
    lemma_div_multiples_vanish, lemma_fundamental_div_mod, lemma_fundamental_div_mod_converse,
};
use crate::Unit;

verus! {

/// Number of display units in one degree of the display unit.
pub const SCALE: i64 = 5000;

/// Largest magnitude of a raw Celsius reading, in milli-degrees, that the
/// panel accepts; keeps every conversion inside `i64`.
pub const CELSIUS_MILLI_LIMIT: i64 = 1_000_000_000_000_000_000;

/// Largest magnitude a converted display value can reach.
pub const DISPLAY_LIMIT: i64 = 9_000_000_000_000_160_000;

/// A raw Celsius reading expressed in the display unit's internal scale.
pub open spec fn to_display_spec(c_milli: int, unit: Unit) -> int {
    match unit {
        Unit::Celsius => 5 * c_milli,
        Unit::Fahrenheit => 9 * c_milli + 160000,
    }
}

/// Inverse of `to_display_spec` (exact on every converted value).
pub open spec fn from_display_spec(v: int, unit: Unit) -> int {
    match unit {
        Unit::Celsius => v / 5,
        Unit::Fahrenheit => (v - 160000) / 9,
    }
}

/// Converts a raw milli-degree Celsius reading to the display scale.
pub fn to_display(c_milli: i64, unit: Unit) -> (v: i64)
    requires
        -CELSIUS_MILLI_LIMIT <= c_milli <= CELSIUS_MILLI_LIMIT,
    ensures
        v == to_display_spec(c_milli as int, unit),
        -DISPLAY_LIMIT <= v <= DISPLAY_LIMIT,
{
    match unit {
        Unit::Celsius => 5 * c_milli,
        Unit::Fahrenheit => 9 * c_milli + 160000,
    }
}

/// Floor division by a positive divisor (the rounding spec-level `/` uses).
fn div_floor(v: i64, d: i64) -> (q: i64)
    requires
        0 < d,
        i64::MIN < v,
    ensures
        q == v as int / d as int,
{
    if v >= 0 {
        v / d
    } else {
        let a: i64 = -v;
        let k: i64 = a / d;
        let m: i64 = a % d;
        proof {
            lemma_fundamental_div_mod(a as int, d as int);
            if m == 0 {
                assert(v as int == (-(k as int)) * (d as int) + 0) by (nonlinear_arith)
                    requires
                        a as int == d as int * (k as int) + m as int,
                        m == 0,
                        v as int == -(a as int),
                ;
                lemma_fundamental_div_mod_converse(v as int, d as int, -(k as int), 0);
            } else {
                assert(v as int == (-(k as int) - 1) * (d as int) + (d as int - m as int))
                    by (nonlinear_arith)
                    requires
                        a as int == d as int * (k as int) + m as int,
                        v as int == -(a as int),
                ;
                lemma_fundamental_div_mod_converse(
                    v as int,
                    d as int,
                    -(k as int) - 1,
                    d as int - m as int,
                );
            }
        }
        if m == 0 {
            -k
        } else {
            -k - 1
        }
    }
}

/// The whole display degrees a value rounds to: nearest, ties to even.
pub open spec fn rounded_deg_spec(v: int) -> int {
    let q = v / (SCALE as int);
    let r = v % (SCALE as int);
    if r > 2500 {
        q + 1
    } else if r < 2500 {
        q
    } else if q % 2 == 0 {
        q
    } else {
        q + 1
    }
}

/// Rounds a display value to whole degrees, nearest, ties to even.
pub fn rounded_deg(v: i64) -> (d: i64)
    requires
        -DISPLAY_LIMIT <= v <= DISPLAY_LIMIT,
    ensures
        d == rounded_deg_spec(v as int),
        -2_000_000_000_000_000 <= d <= 2_000_000_000_000_000,
{
    let q: i64 = div_floor(v, SCALE);
    let r: i64 = v - SCALE * q;
    proof {
        lemma_fundamental_div_mod(v as int, SCALE as int);
    }
    if r > 2500 {
        q + 1
    } else if r < 2500 {
        q
    } else {
        let h: i64 = q - 2 * div_floor(q, 2);
        proof {
            lemma_fundamental_div_mod(q as int, 2);
        }
        if h == 0 {
            q
        } else {
            q + 1
        }
    }
}

/// Recovers the raw milli-degree Celsius reading from a display value.
pub fn from_display(v: i64, unit: Unit) -> (c: i64)
    requires
        -DISPLAY_LIMIT <= v <= DISPLAY_LIMIT,
    ensures
        c == from_display_spec(v as int, unit),
{
    match unit {
        Unit::Celsius => div_floor(v, 5),
        Unit::Fahrenheit => div_floor(v - 160000, 9),
    }
}

/// Unit conversion round-trips: a reading converted to the display scale and
/// back through the inverse formula is reproduced exactly, in either unit.
pub proof fn lemma_conversion_round_trip(c_milli: int, unit: Unit)
    ensures
        from_display_spec(to_display_spec(c_milli, unit), unit) == c_milli,
{
    match unit {
        Unit::Celsius => {
            lemma_div_multiples_vanish(c_milli, 5);
        },
        Unit::Fahrenheit => {
            assert(to_display_spec(c_milli, unit) - 160000 == 9 * c_milli);
            lemma_div_multiples_vanish(c_milli, 9);
        },
    }
}

} // verus!
