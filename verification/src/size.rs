//! Byte counts for people: `512 B`, `1.5 KiB`, `84.2 MiB`.
//!
//! The count is shown in the largest binary unit (up to TiB) that it reaches,
//! with one decimal digit beyond bytes. The digit is the one a `u64` count
//! gets when it is converted to a 64-bit float, divided by the unit and
//! printed with one decimal place: the conversion rounds to the nearest
//! float (53 significant bits, ties to even), the division by a power of two
//! is exact, and printing rounds the exact quotient to the nearest tenth,
//! ties to even. All of it is computed here in integers.

use vstd::prelude::*;
use vstd::string::StringExecFns;
use crate::text::{decimal, digit_char, digit_str, push_decimal};

verus! {

/// 2^53: the first integer from which 64-bit floats skip integers.
pub open spec fn float_exact_limit() -> nat {
    9007199254740992
}

/// 1024^k.
pub open spec fn pow1024(k: nat) -> nat
    decreases k,
{
    if k == 0 {
        1
    } else {
        1024 * pow1024((k - 1) as nat)
    }
}

/// The unit a count is shown in: 0 for B up to 4 for TiB.
pub open spec fn size_unit(b: nat) -> nat {
    if b < 1024 {
        0
    } else if b < 1048576 {
        1
    } else if b < 1073741824 {
        2
    } else if b < 1099511627776 {
        3
    } else {
        4
    }
}

/// The symbol of a unit.
pub open spec fn unit_symbol(k: nat) -> Seq<char> {
    if k == 0 {
        seq!['B']
    } else if k == 1 {
        seq!['K', 'i', 'B']
    } else if k == 2 {
        seq!['M', 'i', 'B']
    } else if k == 3 {
        seq!['G', 'i', 'B']
    } else {
        seq!['T', 'i', 'B']
    }
}

/// `q + r / d` rounded to the nearest integer, ties to the even one.
pub open spec fn round_half_even(q: nat, r: nat, d: nat) -> nat {
    if 2 * r > d || (2 * r == d && q % 2 == 1) {
        q + 1
    } else {
        q
    }
}

/// The spacing of 64-bit floats around `b`, searching upward from `p`: the
/// first power of two (by doubling `p`) for which `b / p` has at most 53 bits.
pub open spec fn float_spacing_from(b: nat, p: nat) -> nat
    decreases b + 1 - p,
{
    if p == 0 || b / p < float_exact_limit() {
        p
    } else {
        proof {
            lemma_double_below(b, p);
        }
        float_spacing_from(b, 2 * p)
    }
}

/// Doubling the spacing stays below a count that still has more than 53 bits.
pub proof fn lemma_double_below(b: nat, p: nat)
    requires
        p > 0,
        b / p >= float_exact_limit(),
    ensures
        2 * p <= b,
{
    vstd::arithmetic::div_mod::lemma_fundamental_div_mod(b as int, p as int);
    let q = b / p;
    assert(p * q >= p * 2) by (nonlinear_arith)
        requires
            q >= 2,
            p > 0,
    ;
}

/// The value of `b` converted to the nearest 64-bit float.
pub open spec fn float_value(b: nat) -> nat {
    let p = float_spacing_from(b, 1);
    round_half_even(b / p, b % p, p) * p
}

/// The text shown for a count of bytes.
pub open spec fn spec_human_bytes(b: nat) -> Seq<char> {
    let u = size_unit(b);
    if u == 0 {
        decimal(b) + seq![' '] + unit_symbol(0)
    } else {
        let v = float_value(b);
        let d = pow1024(u);
        let t = round_half_even((10 * v) / d, (10 * v) % d, d);
        decimal(t / 10) + seq!['.', digit_char(t % 10), ' '] + unit_symbol(u)
    }
}

/// Shows a count of bytes in the largest binary unit it reaches, up to TiB.
pub fn human_bytes(bytes: u64) -> (r: String)
    ensures
        r@ == spec_human_bytes(bytes as nat),
{
    let mut s = String::new();
    proof {
        reveal_strlit(" B");
        reveal_strlit(" KiB");
        reveal_strlit(" MiB");
        reveal_strlit(" GiB");
        reveal_strlit(" TiB");
        reveal_strlit(".");
    }
    if bytes < 1024 {
        push_decimal(&mut s, bytes as u128);
        s.append(" B");
        assert(s@ =~= spec_human_bytes(bytes as nat));
        return s;
    }
    let unit: u64;
    let d: u128;
    if bytes < 1048576 {
        unit = 1;
        d = 1024;
    } else if bytes < 1073741824 {
        unit = 2;
        d = 1048576;
    } else if bytes < 1099511627776 {
        unit = 3;
        d = 1073741824;
    } else {
        unit = 4;
        d = 1099511627776;
    }
    assert(unit == size_unit(bytes as nat));
    assert(d == pow1024(unit as nat)) by {
        reveal_with_fuel(pow1024, 5);
    }
    // The spacing of floats around `bytes`.
    let mut p: u64 = 1;
    while bytes / p >= 9007199254740992
        invariant
            p > 0,
            p <= bytes,
            float_spacing_from(bytes as nat, 1) == float_spacing_from(bytes as nat, p as nat),
        decreases bytes - p,
    {
        proof {
            lemma_double_below(bytes as nat, p as nat);
        }
        p = p * 2;
    }
    assert(float_spacing_from(bytes as nat, p as nat) == p as nat);
    let q: u64 = bytes / p;
    let rem: u64 = bytes % p;
    let rounded: u64 = if 2 * (rem as u128) > p as u128 || (2 * (rem as u128) == p as u128 && q % 2 == 1) {
        q + 1
    } else {
        q
    };
    assert(rounded <= 9007199254740992);
    assert((rounded as int) * (p as int) <= 9007199254740992 * 18446744073709551615) by (nonlinear_arith)
        requires
            rounded <= 9007199254740992,
            p <= 18446744073709551615,
    ;
    let value: u128 = (rounded as u128) * (p as u128);
    assert(value == float_value(bytes as nat));
    let tenfold: u128 = 10 * value;
    let tq: u128 = tenfold / d;
    let tr: u128 = tenfold % d;
    let t: u128 = if 2 * tr > d || (2 * tr == d && tq % 2 == 1) {
        tq + 1
    } else {
        tq
    };
    push_decimal(&mut s, t / 10);
    s.append(".");
    s.append(digit_str((t % 10) as u64));
    if unit == 1 {
        s.append(" KiB");
    } else if unit == 2 {
        s.append(" MiB");
    } else if unit == 3 {
        s.append(" GiB");
    } else {
        s.append(" TiB");
    }
    assert(s@ =~= spec_human_bytes(bytes as nat));
    s
}

} // verus!
