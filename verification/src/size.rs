//! Byte-size formatting.
//!
//! A byte count is shown against the largest binary unit it reaches,
//! with one decimal place when the division is not exact. The decimal
//! is computed in tenths with half-up rounding, so no floating point
//! is involved.

use vstd::prelude::*;

use vstd::arithmetic::div_mod::lemma_fundamental_div_mod;

use crate::text::{dec_spec, digit_char, digit_to_char, u64_to_dec};

verus! {

/// The unit suffix for `k` divisions by 1024.
pub open spec fn unit_name(k: int) -> Seq<char> {
    if k == 0 {
        "B"@
    } else if k == 1 {
        "KB"@
    } else if k == 2 {
        "MB"@
    } else if k == 3 {
        "GB"@
    } else {
        "TB"@
    }
}

/// How many times 1024 divides into the shown unit, capped at the
/// largest unit.
pub open spec fn size_unit(bytes: nat) -> int {
    if bytes < 1024 {
        0
    } else if bytes < 1048576 {
        1
    } else if bytes < 1073741824 {
        2
    } else if bytes < 1099511627776 {
        3
    } else {
        4
    }
}

/// The divisor of unit `k`.
pub open spec fn unit_div(k: int) -> int {
    if k == 0 {
        1
    } else if k == 1 {
        1024
    } else if k == 2 {
        1048576
    } else if k == 3 {
        1073741824
    } else {
        1099511627776
    }
}

/// What a byte count formats to: the exact whole value when the unit
/// divides it, else one decimal place, rounded half-up in tenths.
pub open spec fn format_size_spec(bytes: nat) -> Seq<char> {
    let b = bytes as int;
    let k = size_unit(bytes);
    let d = unit_div(k);
    if b % d == 0 || k == 0 {
        dec_spec((b / d) as nat) + " "@ + unit_name(k)
    } else {
        let tenths = (b * 10 + d / 2) / d;
        dec_spec((tenths / 10) as nat) + "."@ + seq![digit_char(tenths % 10)] + " "@ + unit_name(
            k,
        )
    }
}

/// Formats a byte count, as `format_size_spec` says.
pub fn format_size(bytes: u64) -> (r: String)
    ensures
        r@ == format_size_spec(bytes as nat),
{
    let k: u32 = if bytes < 1024 {
        0
    } else if bytes < 1048576 {
        1
    } else if bytes < 1073741824 {
        2
    } else if bytes < 1099511627776 {
        3
    } else {
        4
    };
    let d: u64 = if k == 0 {
        1
    } else if k == 1 {
        1024
    } else if k == 2 {
        1048576
    } else if k == 3 {
        1073741824
    } else {
        1099511627776
    };
    proof {
        assert(k as int == size_unit(bytes as nat));
        assert(d as int == unit_div(k as int));
    }
    if bytes % d == 0 || k == 0 {
        let mut s = u64_to_dec(bytes / d);
        s.append(" ");
        append_unit(&mut s, k);
        proof {
            assert(s@ =~= format_size_spec(bytes as nat));
        }
        s
    } else {
        let wide: u128 = ((bytes as u128) * 10 + (d as u128) / 2) / (d as u128);
        proof {
            let x = (bytes as int) * 10 + (d as int) / 2;
            lemma_fundamental_div_mod(x, d as int);
            assert(wide as int == x / (d as int));
            assert((x / (d as int)) * (d as int) <= x);
            assert(wide as int * 1024 <= wide as int * (d as int)) by (nonlinear_arith)
                requires
                    wide as int >= 0,
                    d as int >= 1024,
            ;
            assert(wide as int <= u64::MAX as int);
        }
        let tenths: u64 = wide as u64;
        let mut s = u64_to_dec(tenths / 10);
        s.append(".");
        s.push(digit_to_char(tenths % 10));
        s.append(" ");
        append_unit(&mut s, k);
        proof {
            assert(s@ =~= format_size_spec(bytes as nat));
        }
        s
    }
}

/// Appends the unit suffix for `k` divisions.
fn append_unit(s: &mut String, k: u32)
    ensures
        final(s)@ == old(s)@ + unit_name(k as int),
{
    if k == 0 {
        s.append("B");
    } else if k == 1 {
        s.append("KB");
    } else if k == 2 {
        s.append("MB");
    } else if k == 3 {
        s.append("GB");
    } else {
        s.append("TB");
    }
}

} // verus!
