//! Human-readable file sizes.
use vstd::prelude::*;
use crate::text::{decimal_text, digit_char, push_char, push_decimal, push_digit_of};

verus! {

/// `2` to the power `e`.
pub open spec fn exp2(e: nat) -> nat
    decreases e,
{
    if e == 0 {
        1
    } else {
        2 * exp2((e - 1) as nat)
    }
}

/// `1024` to the power `k`.
pub open spec fn exp1024(k: nat) -> nat
    decreases k,
{
    if k == 0 {
        1
    } else {
        1024 * exp1024((k - 1) as nat)
    }
}

/// `numer / denom` rounded to the nearest integer, ties to the even one.
pub open spec fn round_half_even(numer: nat, denom: nat) -> nat {
    let q = numer / denom;
    let r = numer % denom;
    if 2 * r > denom || (2 * r == denom && q % 2 == 1) {
        q + 1
    } else {
        q
    }
}

/// How many low bits of `n` do not fit in the 53-bit significand of a double.
pub open spec fn significand_shift(n: nat) -> nat
    decreases n,
{
    if n < 0x20_0000_0000_0000 {
        0
    } else {
        1 + significand_shift(n / 2)
    }
}

/// The double-precision value nearest to `n` (ties to an even significand), which
/// is what converting `n` to a double yields.
pub open spec fn nearest_double(n: nat) -> nat {
    let unit = exp2(significand_shift(n));
    round_half_even(n, unit) * unit
}

/// The unit a size of `v` bytes is shown in: 0 for B, 1 for KB, up to 4 for TB.
pub open spec fn size_unit(v: nat) -> nat {
    if v < exp1024(1) {
        0
    } else if v < exp1024(2) {
        1
    } else if v < exp1024(3) {
        2
    } else if v < exp1024(4) {
        3
    } else {
        4
    }
}

/// The name of unit `k`.
pub open spec fn unit_text(k: nat) -> Seq<char> {
    if k == 0 {
        seq!['B']
    } else if k == 1 {
        seq!['K', 'B']
    } else if k == 2 {
        seq!['M', 'B']
    } else if k == 3 {
        seq!['G', 'B']
    } else {
        seq!['T', 'B']
    }
}

/// How `format_file_size` shows `size` bytes: below 1 KB the exact count and `B`;
/// otherwise the size (taken as a double) in the largest unit up to TB in which it
/// is at least 1, with one decimal, rounded half to even, then the unit.
pub open spec fn file_size_text(size: nat) -> Seq<char> {
    let v = nearest_double(size);
    let k = size_unit(v);
    if k == 0 {
        decimal_text(size) + seq![' '] + unit_text(0)
    } else {
        let tenths = round_half_even(v * 10, exp1024(k));
        decimal_text(tenths / 10) + seq!['.', digit_char(tenths % 10), ' '] + unit_text(k)
    }
}

proof fn lemma_exp2_positive(e: nat)
    ensures
        exp2(e) >= 1,
    decreases e,
{
    if e > 0 {
        lemma_exp2_positive((e - 1) as nat);
    }
}

/// Dropping the low bits of a size of at least 2^53 leaves at least 2^52.
proof fn lemma_significand_at_least(n: nat)
    requires
        n >= 0x20_0000_0000_0000,
    ensures
        n / exp2(significand_shift(n)) >= 0x10_0000_0000_0000,
    decreases n,
{
    let h = n / 2;
    let e = exp2(significand_shift(h));
    lemma_exp2_positive(significand_shift(h));
    assert(significand_shift(n) == 1 + significand_shift(h));
    assert(exp2(significand_shift(n)) == 2 * e);
    vstd::arithmetic::div_mod::lemma_div_denominator(n as int, 2, e as int);
    if h >= 0x20_0000_0000_0000 {
        lemma_significand_at_least(h);
    } else {
        assert(e == 1);
        assert(h / 1 == h);
    }
}

/// A size is shown in the same unit as the double nearest to it would be.
proof fn lemma_unit_of_nearest_double(n: nat)
    ensures
        size_unit(nearest_double(n)) == size_unit(n),
{
    lemma_exp1024_values();
    let s = significand_shift(n);
    let unit = exp2(s);
    lemma_exp2_positive(s);
    if n < 0x20_0000_0000_0000 {
        assert(s == 0);
        assert(unit == 1);
        assert(n / 1 == n && n % 1 == 0);
        assert(nearest_double(n) == n);
    } else {
        lemma_significand_at_least(n);
        let q = n / unit;
        assert(round_half_even(n, unit) >= q);
        assert(round_half_even(n, unit) * unit >= q * 1) by (nonlinear_arith)
            requires
                round_half_even(n, unit) >= q,
                unit >= 1,
        ;
    }
}

/// `format_file_size` shows the larger of two sizes in the same or a larger unit
/// (the unit of `file_size_text(size)` is `size_unit(nearest_double(size))`).
pub proof fn lemma_unit_grows_with_size(a: nat, b: nat)
    requires
        a <= b,
    ensures
        size_unit(nearest_double(a)) <= size_unit(nearest_double(b)),
{
    lemma_exp1024_values();
    lemma_unit_of_nearest_double(a);
    lemma_unit_of_nearest_double(b);
}

proof fn lemma_exp1024_values()
    ensures
        exp1024(1) == 0x400,
        exp1024(2) == 0x10_0000,
        exp1024(3) == 0x4000_0000,
        exp1024(4) == 0x100_0000_0000,
{
    reveal_with_fuel(exp1024, 5);
}

/// The double nearest to `size`, as an integer.
fn to_nearest_double(size: u64) -> (v: u128)
    ensures
        v == nearest_double(size as nat),
        v <= 0x1000_0000_0000_0000_0000,
{
    let mut m: u64 = size;
    let mut unit: u64 = 1;
    let ghost mut s: nat = 0;
    while m >= 0x20_0000_0000_0000
        invariant
            1 <= unit,
            unit == exp2(s),
            m * unit <= size,
            unit == 1 || m >= 0x10_0000_0000_0000,
            s + significand_shift(m as nat) == significand_shift(size as nat),
        decreases m,
    {
        assert(unit < 0x800) by (nonlinear_arith)
            requires
                m >= 0x20_0000_0000_0000,
                m * unit <= size,
                size <= 0xffff_ffff_ffff_ffff,
                1 <= unit,
        ;
        assert((m / 2) * (unit * 2) <= m * unit) by (nonlinear_arith);
        m = m / 2;
        unit = unit * 2;
        proof {
            s = s + 1;
        }
    }
    assert(unit < 0x1000) by (nonlinear_arith)
        requires
            m * unit <= size,
            size <= 0xffff_ffff_ffff_ffff,
            1 <= unit,
            m >= 0x10_0000_0000_0000 || unit == 1,
    ;
    let q = size / unit;
    let r = size % unit;
    let rounded: u128 = if 2 * (r as u128) > unit as u128 || (2 * (r as u128) == unit as u128 && q
        % 2 == 1) {
        q as u128 + 1
    } else {
        q as u128
    };
    assert(rounded * unit <= 0x1000_0000_0000_0000_0000) by (nonlinear_arith)
        requires
            rounded <= q + 1,
            q <= 0xffff_ffff_ffff_ffff,
            1 <= unit < 0x1000,
    ;
    rounded * unit as u128
}

/// Shows a byte count in B, KB, MB, GB or TB, e.g. `"512 B"` or `"1.5 KB"`.
pub fn format_file_size(size: u64) -> (text: String)
    ensures
        text@ == file_size_text(size as nat),
{
    proof {
        lemma_exp1024_values();
    }
    let v = to_nearest_double(size);
    let (k, d): (u8, u128) = if v < 0x400 {
        (0, 1)
    } else if v < 0x10_0000 {
        (1, 0x400)
    } else if v < 0x4000_0000 {
        (2, 0x10_0000)
    } else if v < 0x100_0000_0000 {
        (3, 0x4000_0000)
    } else {
        (4, 0x100_0000_0000)
    };
    let mut text = String::new();
    if k == 0 {
        push_decimal(&mut text, size as u128);
        push_char(&mut text, ' ');
        push_char(&mut text, 'B');
    } else {
        let t = v * 10;
        let q = t / d;
        let r = t % d;
        let tenths = if 2 * r > d || (2 * r == d && q % 2 == 1) {
            q + 1
        } else {
            q
        };
        push_decimal(&mut text, tenths / 10);
        push_char(&mut text, '.');
        push_digit_of(&mut text, tenths % 10);
        push_char(&mut text, ' ');
        if k == 1 {
            push_char(&mut text, 'K');
        } else if k == 2 {
            push_char(&mut text, 'M');
        } else if k == 3 {
            push_char(&mut text, 'G');
        } else {
            push_char(&mut text, 'T');
        }
        push_char(&mut text, 'B');
    }
    text
}

} // verus!
