//! Sizes written for people to read: bytes, kilobytes or megabytes.

use crate::decimal::{decimal, decimal_string, digit};
use vstd::arithmetic::div_mod::{
    lemma_fundamental_div_mod, lemma_hoist_over_denominator, lemma_mod_multiples_vanish,
};
use vstd::prelude::*;
use vstd::string::StringExecFns;

verus! {

/// `bytes / unit` in hundredths, rounded to the nearest; a tie goes to the
/// even neighbour.
pub open spec fn hundredths(bytes: nat, unit: nat) -> nat
    recommends
        unit > 0,
{
    let q = (100 * bytes) / unit;
    let r = (100 * bytes) % unit;
    if 2 * r > unit || (2 * r == unit && q % 2 == 1) {
        q + 1
    } else {
        q
    }
}

/// A number of hundredths written with two decimals, as in `2.00`.
pub open spec fn two_decimals(h: nat) -> Seq<char> {
    decimal(h / 100) + seq!['.', digit(h % 100 / 10), digit(h % 10)]
}

/// Bytes in a kilobyte.
pub const KILOBYTE: u128 = 1024;

/// Bytes in a megabyte.
pub const MEGABYTE: u128 = 1048576;

/// A size for people to read: in bytes below a kilobyte, in kilobytes
/// below a megabyte, in megabytes from there on; the last two with two
/// decimals.
pub open spec fn size_text(bytes: nat) -> Seq<char> {
    if bytes < KILOBYTE {
        decimal(bytes) + " B"@
    } else if bytes < MEGABYTE {
        two_decimals(hundredths(bytes, KILOBYTE as nat)) + " KB"@
    } else {
        two_decimals(hundredths(bytes, MEGABYTE as nat)) + " MB"@
    }
}

/// A hundred times `bytes`, divided by `unit`, from the quotient and the
/// remainder of `bytes` by `unit`.
proof fn lemma_scale_split(bytes: int, unit: int)
    requires
        0 <= bytes,
        2 <= unit,
    ensures
        (100 * bytes) / unit == 100 * (bytes / unit) + (100 * (bytes % unit)) / unit,
        (100 * bytes) % unit == (100 * (bytes % unit)) % unit,
        0 <= (100 * (bytes % unit)) / unit < 100,
        0 <= (bytes / unit) * 2 <= bytes,
{
    let whole = bytes / unit;
    let rest = bytes % unit;
    lemma_fundamental_div_mod(bytes, unit);
    assert(100 * bytes == unit * (100 * whole) + 100 * rest) by (nonlinear_arith)
        requires
            bytes == unit * whole + rest,
    ;
    lemma_mod_multiples_vanish(100 * whole, 100 * rest, unit);
    lemma_hoist_over_denominator(100 * rest, 100 * whole, unit as nat);
    assert((100 * whole) * unit == unit * (100 * whole)) by (nonlinear_arith);
    assert(0 <= (100 * rest) / unit < 100) by (nonlinear_arith)
        requires
            0 <= rest < unit,
    ;
    assert(0 <= whole * 2 <= bytes) by (nonlinear_arith)
        requires
            whole == bytes / unit,
            2 <= unit,
            0 <= bytes,
    ;
}

/// `bytes / unit` rounded to hundredths: the whole part, and the two
/// decimals as a number below 100.
fn scaled_parts(bytes: u128, unit: u128) -> (parts: (u128, u128))
    requires
        2 <= unit <= MEGABYTE,
    ensures
        parts.0 == hundredths(bytes as nat, unit as nat) / 100,
        parts.1 == hundredths(bytes as nat, unit as nat) % 100,
{
    proof {
        lemma_scale_split(bytes as int, unit as int);
    }
    let whole = bytes / unit;
    let rest = bytes % unit;
    let q = (100 * rest) / unit;
    let r = (100 * rest) % unit;
    let up: u128 = if 2 * r > unit || (2 * r == unit && q % 2 == 1) {
        1
    } else {
        0
    };
    let ghost h = hundredths(bytes as nat, unit as nat);
    assert(h == 100 * whole + q + up);
    if q + up == 100 {
        (whole + 1, 0)
    } else {
        (whole, q + up)
    }
}

/// Writes `bytes / unit` with two decimals.
fn scaled_string(bytes: u128, unit: u128) -> (s: String)
    requires
        2 <= unit <= MEGABYTE,
    ensures
        s@ == two_decimals(hundredths(bytes as nat, unit as nat)),
{
    let (whole, part) = scaled_parts(bytes, unit);
    let mut s = decimal_string(whole);
    proof {
        reveal_strlit(".");
    }
    s.append(".");
    s.append(decimal_string(part / 10).as_str());
    s.append(decimal_string(part % 10).as_str());
    proof {
        assert(s@ =~= two_decimals(hundredths(bytes as nat, unit as nat)));
    }
    s
}

/// Writes a size for people to read.
pub fn size_string(bytes: u128) -> (s: String)
    ensures
        s@ == size_text(bytes as nat),
{
    if bytes < KILOBYTE {
        let mut s = decimal_string(bytes);
        s.append(" B");
        s
    } else if bytes < MEGABYTE {
        let mut s = scaled_string(bytes, KILOBYTE);
        s.append(" KB");
        s
    } else {
        let mut s = scaled_string(bytes, MEGABYTE);
        s.append(" MB");
        s
    }
}

} // verus!
