//! Human-readable formatting of byte and bitrate magnitudes: base-1024
//! scaling with one decimal digit and a unit suffix, built on a verified
//! decimal renderer.
//!
//! The decimal digit after the point is rounded to the nearest tenth of a
//! unit (halves up), carrying into the whole part: 2047 bytes render `2.0K`.

use vstd::arithmetic::div_mod::{
    lemma_div_decreases, lemma_fundamental_div_mod, lemma_fundamental_div_mod_converse,
    lemma_hoist_over_denominator, lemma_multiply_divide_lt,
};
use vstd::prelude::*;
use vstd::string::StringExecFns;

verus! {

/// The character for one decimal digit.
pub open spec fn digit_char(d: nat) -> char
    recommends
        d < 10,
{
    if d == 0 {
        '0'
    } else if d == 1 {
        '1'
    } else if d == 2 {
        '2'
    } else if d == 3 {
        '3'
    } else if d == 4 {
        '4'
    } else if d == 5 {
        '5'
    } else if d == 6 {
        '6'
    } else if d == 7 {
        '7'
    } else if d == 8 {
        '8'
    } else {
        '9'
    }
}

/// The decimal digits of `n`, most significant first, without leading zeros
/// (a single `0` for zero itself).
pub open spec fn dec_digits(n: nat) -> Seq<char>
    decreases n,
{
    if n < 10 {
        seq![digit_char(n)]
    } else {
        dec_digits(n / 10).push(digit_char(n % 10))
    }
}

/// 1024 to the power `e`.
pub open spec fn pow1024(e: nat) -> nat
    decreases e,
{
    if e == 0 {
        1
    } else {
        1024 * pow1024((e - 1) as nat)
    }
}

pub open spec fn unit_index_from(v: nat, u: nat) -> nat
    recommends
        u <= 8,
    decreases 8 - u,
{
    if u >= 8 {
        8
    } else if v < pow1024(u + 1) {
        u
    } else {
        unit_index_from(v, u + 1)
    }
}

/// The unit a value is shown in: the smallest power of 1024 that brings it
/// under 1024, capped at the largest named unit.
pub open spec fn spec_unit_index(v: nat) -> nat {
    unit_index_from(v, 0)
}

/// The suffix letter of each base-1024 unit.
pub open spec fn unit_suffix(u: nat) -> Seq<char>
    recommends
        u <= 8,
{
    if u == 0 {
        Seq::empty()
    } else if u == 1 {
        "K"@
    } else if u == 2 {
        "M"@
    } else if u == 3 {
        "G"@
    } else if u == 4 {
        "T"@
    } else if u == 5 {
        "P"@
    } else if u == 6 {
        "E"@
    } else if u == 7 {
        "Z"@
    } else {
        "Y"@
    }
}

/// The human-readable form of a size: the value in its unit, rounded to the
/// nearest tenth of the unit (halves up), then the unit's suffix. `scaled`
/// counts tenths of a unit, so its last digit is the decimal and the rest is
/// the whole part, with the rounding's carry built in.
pub open spec fn spec_humanize_size(v: nat) -> Seq<char> {
    let u = spec_unit_index(v);
    let p = pow1024(u);
    let scaled = (v * 10 + p / 2) / p;
    dec_digits(scaled / 10) + "."@ + dec_digits(scaled % 10) + unit_suffix(u)
}

/// The human-readable form of a bitrate: the size string with a `bps` suffix.
pub open spec fn spec_humanize_bps(v: nat) -> Seq<char> {
    spec_humanize_size(v) + "bps"@
}

/// Values that can be shown as human-readable sizes and bitrates.
pub trait NumericFormatter: Sized {
    spec fn numeric_value(self) -> nat;

    /// Base-1024 size string, such as `1.0K` for 1024.
    fn humanize_size(self) -> (s: String)
        ensures
            s@ == spec_humanize_size(self.numeric_value()),
    ;

    /// Bits-per-second string, such as `1.0Kbps`.
    fn humanize_bps(self) -> (s: String)
        ensures
            s@ == spec_humanize_bps(self.numeric_value()),
    ;
}

proof fn lemma_pow1024_cap()
    ensures
        pow1024(8) == 0x100000000000000000000,
{
    reveal_with_fuel(pow1024, 10);
}

proof fn lemma_pow1024_increases(a: nat, b: nat)
    requires
        a <= b,
    ensures
        pow1024(a) <= pow1024(b),
        pow1024(a) >= 1,
    decreases b,
{
    if a == b {
        if a > 0 {
            lemma_pow1024_increases((a - 1) as nat, (b - 1) as nat);
        }
    } else {
        lemma_pow1024_increases(a, (b - 1) as nat);
    }
}

/// Append one decimal digit's character.
fn push_digit(out: &mut String, d: u128)
    requires
        d < 10,
    ensures
        final(out)@ == old(out)@ + seq![digit_char(d as nat)],
{
    if d == 0 {
        proof {
            reveal_strlit("0");
            assert("0"@ =~= seq![digit_char(0)]);
        }
        out.append("0");
    } else if d == 1 {
        proof {
            reveal_strlit("1");
            assert("1"@ =~= seq![digit_char(1)]);
        }
        out.append("1");
    } else if d == 2 {
        proof {
            reveal_strlit("2");
            assert("2"@ =~= seq![digit_char(2)]);
        }
        out.append("2");
    } else if d == 3 {
        proof {
            reveal_strlit("3");
            assert("3"@ =~= seq![digit_char(3)]);
        }
        out.append("3");
    } else if d == 4 {
        proof {
            reveal_strlit("4");
            assert("4"@ =~= seq![digit_char(4)]);
        }
        out.append("4");
    } else if d == 5 {
        proof {
            reveal_strlit("5");
            assert("5"@ =~= seq![digit_char(5)]);
        }
        out.append("5");
    } else if d == 6 {
        proof {
            reveal_strlit("6");
            assert("6"@ =~= seq![digit_char(6)]);
        }
        out.append("6");
    } else if d == 7 {
        proof {
            reveal_strlit("7");
            assert("7"@ =~= seq![digit_char(7)]);
        }
        out.append("7");
    } else if d == 8 {
        proof {
            reveal_strlit("8");
            assert("8"@ =~= seq![digit_char(8)]);
        }
        out.append("8");
    } else {
        proof {
            reveal_strlit("9");
            assert("9"@ =~= seq![digit_char(9)]);
        }
        out.append("9");
    }
}

/// Append the decimal rendering of `n`.
pub fn push_dec(out: &mut String, n: u128)
    ensures
        final(out)@ == old(out)@ + dec_digits(n as nat),
    decreases n,
{
    if n < 10 {
        push_digit(out, n);
    } else {
        proof {
            lemma_div_decreases(n as int, 10);
        }
        push_dec(out, n / 10);
        push_digit(out, n % 10);
        proof {
            assert(old(out)@ + dec_digits((n / 10) as nat) + seq![digit_char((n % 10) as nat)]
                =~= old(out)@ + dec_digits(n as nat));
        }
    }
}

/// The unit a value falls in and that unit's scale.
fn unit_scale(v: u128) -> (r: (usize, u128))
    ensures
        r.0 == spec_unit_index(v as nat),
        r.1 == pow1024(r.0 as nat),
        r.0 <= 8,
        r.1 >= 1,
        r.0 < 8 ==> (v as nat) < pow1024(r.0 as nat + 1),
{
    let mut u: usize = 0;
    let mut p: u128 = 1;
    proof {
        lemma_pow1024_cap();
    }
    while u < 8 && v >= p * 1024
        invariant
            u <= 8,
            p == pow1024(u as nat),
            p <= 0x100000000000000000000,
            spec_unit_index(v as nat) == unit_index_from(v as nat, u as nat),
        decreases 8 - u,
    {
        proof {
            lemma_pow1024_increases((u + 1) as nat, 8);
            lemma_pow1024_cap();
        }
        p = p * 1024;
        u = u + 1;
    }
    proof {
        lemma_pow1024_increases(0, u as nat);
    }
    (u, p)
}

/// Verified rendering of a size in base-1024 units.
fn humanize_size_u128(v: u128) -> (s: String)
    ensures
        s@ == spec_humanize_size(v as nat),
{
    let (u, p) = unit_scale(v);
    let whole: u128 = v / p;
    let rem: u128 = v % p;
    proof {
        lemma_pow1024_increases(u as nat, 8);
        lemma_pow1024_cap();
    }
    // Tenths of a unit in the remainder, rounded to nearest (halves up).
    let rounded: u128 = (rem * 10 + p / 2) / p;
    let ghost scaled = ((v as nat) * 10 + (p as nat) / 2) as int / (p as int);
    proof {
        // The remainder contributes at most ten tenths.
        lemma_fundamental_div_mod(p as int, 2);
        lemma_multiply_divide_lt(rem as int * 10 + p as int / 2, p as int, 11);
        // Scaling the whole value is scaling the remainder plus ten per unit.
        lemma_fundamental_div_mod(v as int, p as int);
        assert((v as int) * 10 + (p as int) / 2 == (rem as int * 10 + p as int / 2) + (
        whole as int * 10) * (p as int)) by (nonlinear_arith)
            requires
                v as int == (p as int) * (whole as int) + (rem as int),
        ;
        lemma_hoist_over_denominator(rem as int * 10 + p as int / 2, whole as int * 10, p as nat);
        assert(scaled == whole as int * 10 + rounded as int);
        // The last scaled digit is the decimal; the rest is the whole part.
        if rounded == 10 {
            lemma_fundamental_div_mod_converse(scaled, 10, whole as int + 1, 0);
        } else {
            lemma_fundamental_div_mod_converse(scaled, 10, whole as int, rounded as int);
        }
        // A carry cannot overflow: the whole part stays under the next unit.
        if u < 8 {
            lemma_multiply_divide_lt(v as int, p as int, 1024);
        } else {
            lemma_multiply_divide_lt(v as int, p as int, 0x1000000000000);
        }
    }
    let mut out = String::new();
    if rounded == 10 {
        push_dec(&mut out, whole + 1);
        out.append(".");
        push_dec(&mut out, 0);
    } else {
        push_dec(&mut out, whole);
        out.append(".");
        push_dec(&mut out, rounded);
    }
    match u {
        0 => (),
        1 => out.append("K"),
        2 => out.append("M"),
        3 => out.append("G"),
        4 => out.append("T"),
        5 => out.append("P"),
        6 => out.append("E"),
        7 => out.append("Z"),
        _ => out.append("Y"),
    }
    proof {
        assert(out@ =~= spec_humanize_size(v as nat));
    }
    out
}

impl NumericFormatter for u128 {
    open spec fn numeric_value(self) -> nat {
        self as nat
    }

    fn humanize_size(self) -> (s: String) {
        humanize_size_u128(self)
    }

    fn humanize_bps(self) -> (s: String) {
        let s = humanize_size_u128(self);
        s.concat("bps")
    }
}

impl NumericFormatter for u64 {
    open spec fn numeric_value(self) -> nat {
        self as nat
    }

    fn humanize_size(self) -> (s: String) {
        humanize_size_u128(self as u128)
    }

    fn humanize_bps(self) -> (s: String) {
        let s = humanize_size_u128(self as u128);
        s.concat("bps")
    }
}

} // verus!
