use vstd::prelude::*;
use crate::text::{decimal, decimal_chars, digit_char, digit_to_char, push_all, string_of};

verus! {

/// 2^53: below it every integer is exact as an `f64`.
pub open spec fn f64_exact_limit() -> nat {
    9007199254740992
}

/// The spacing of `f64` values around the integer `n` (a power of two):
/// 1 below 2^53, doubling with each further bit of `n`.
pub open spec fn f64_spacing(n: nat) -> nat
    decreases n,
{
    if n < f64_exact_limit() {
        1
    } else {
        2 * f64_spacing(n / 2)
    }
}

/// `num / den` rounded to the nearest integer, a tie going to the even one.
pub open spec fn round_half_even(num: nat, den: nat) -> nat
    recommends
        den > 0,
{
    let q = num / den;
    let r = num % den;
    if 2 * r > den || (2 * r == den && q % 2 == 1) {
        q + 1
    } else {
        q
    }
}

/// The integer that `n as f64` holds: `n` rounded to the nearest multiple
/// of the spacing of `f64` values there, a tie going to the even multiple.
pub open spec fn as_f64(n: nat) -> nat {
    round_half_even(n, f64_spacing(n)) * f64_spacing(n)
}

/// The unit that a size is shown in: 0 for B, 1 for K, 2 for M, 3 for G and
/// 4 for T; the largest unit that the size reaches.
pub open spec fn size_unit(size: nat) -> nat {
    if size < 1024 {
        0
    } else if size < 1048576 {
        1
    } else if size < 1073741824 {
        2
    } else if size < 1099511627776 {
        3
    } else {
        4
    }
}

/// The number of bytes in a unit.
pub open spec fn unit_bytes(unit: nat) -> nat {
    if unit == 0 {
        1
    } else if unit == 1 {
        1024
    } else if unit == 2 {
        1048576
    } else if unit == 3 {
        1073741824
    } else {
        1099511627776
    }
}

/// The letter of a unit.
pub open spec fn unit_char(unit: nat) -> char {
    if unit == 0 {
        'B'
    } else if unit == 1 {
        'K'
    } else if unit == 2 {
        'M'
    } else if unit == 3 {
        'G'
    } else {
        'T'
    }
}

/// A size in tenths of its unit: the size as an `f64`, divided by the
/// unit, rounded to one decimal, a tie going to the even tenth.
pub open spec fn size_tenths(size: nat) -> nat {
    round_half_even(as_f64(size) * 10, unit_bytes(size_unit(size)))
}

/// The text of a size: whole bytes below 1024 ("512B"); above, the size in
/// the largest unit it reaches, with one decimal ("1.5K", "2.0M").
pub open spec fn size_text(size: nat) -> Seq<char> {
    let unit = size_unit(size);
    if unit == 0 {
        decimal(size).push('B')
    } else {
        let t = size_tenths(size);
        decimal(t / 10).push('.').push(digit_char(t % 10)).push(unit_char(unit))
    }
}

proof fn lemma_spacing_step(size: nat, p: nat, m: nat)
    requires
        p > 0,
        m == size / p,
        m >= f64_exact_limit(),
    ensures
        m / 2 == size / (p * 2),
        f64_spacing(m) == 2 * f64_spacing(m / 2),
{
    vstd::arithmetic::div_mod::lemma_div_denominator(size as int, p as int, 2);
}

/// The spacing of `f64` values at a `u64`, which is at most 2^12.
fn spacing_of(size: u64) -> (p: u128)
    ensures
        p == f64_spacing(size as nat),
        1 <= p <= 4096,
{
    let mut p: u128 = 1;
    let mut m: u128 = size as u128;
    while m >= 9007199254740992u128
        invariant
            1 <= p <= 4096,
            m == (size as nat) / (p as nat),
            p * m <= size,
            f64_spacing(size as nat) == p * f64_spacing(m as nat),
        decreases m,
    {
        let ghost p0 = p as nat;
        let ghost m0 = m as nat;
        proof {
            lemma_spacing_step(size as nat, p0, m0);
            let sp = f64_spacing(m0 / 2);
            assert(p0 * (2 * sp) == (p0 * 2) * sp) by (nonlinear_arith);
            assert(p0 * 2 <= 4096 && (p0 * 2) * (m0 / 2) <= size) by (nonlinear_arith)
                requires
                    p0 * m0 <= size,
                    m0 >= 9007199254740992,
                    size < 18446744073709551616,
                    p0 >= 1,
            ;
        }
        m = m / 2;
        p = p * 2;
    }
    assert(f64_spacing(m as nat) == 1);
    assert(p * f64_spacing(m as nat) == p) by (nonlinear_arith)
        requires
            f64_spacing(m as nat) == 1,
    ;
    p
}

/// The text of a file size as the listing shows it: below 1024 bytes the
/// whole number of bytes and `B`; above, the size in the largest unit it
/// reaches (K, M, G, T, each 1024 of the one before) with one decimal, the
/// size being taken as an `f64` first and rounded to one decimal with ties
/// to even.
pub fn format_size(size: u64) -> (r: String)
    ensures
        r@ == size_text(size as nat),
{
    let n = size as u128;
    let (unit, bytes, letter): (u128, u128, char) = if n < 1024 {
        (0, 1, 'B')
    } else if n < 1048576 {
        (1, 1024, 'K')
    } else if n < 1073741824 {
        (2, 1048576, 'M')
    } else if n < 1099511627776 {
        (3, 1073741824, 'G')
    } else {
        (4, 1099511627776, 'T')
    };
    let mut out: Vec<char> = Vec::new();
    if unit == 0 {
        let digits = decimal_chars(n);
        push_all(&mut out, &digits);
        out.push('B');
        return string_of(&out);
    }
    let p = spacing_of(size);
    let q = n / p;
    let rem = n % p;
    let q2 = if 2 * rem > p || (2 * rem == p && q % 2 == 1) {
        q + 1
    } else {
        q
    };
    proof {
        assert(q * p <= n) by {
            vstd::arithmetic::div_mod::lemma_fundamental_div_mod(n as int, p as int);
        }
        assert((q + 1) * p <= 2 * n + 4096) by (nonlinear_arith)
            requires
                q * p <= n,
                p <= 4096,
        ;
    }
    let value = q2 * p;
    let scaled = value * 10;
    let tq = scaled / bytes;
    let tr = scaled % bytes;
    let tenths = if 2 * tr > bytes || (2 * tr == bytes && tq % 2 == 1) {
        tq + 1
    } else {
        tq
    };
    proof {
        assert(tq <= scaled) by {
            vstd::arithmetic::div_mod::lemma_div_is_ordered_by_denominator(scaled as int, 1, bytes as int);
        }
    }
    let whole = decimal_chars(tenths / 10);
    push_all(&mut out, &whole);
    out.push('.');
    out.push(digit_to_char(tenths % 10));
    out.push(letter);
    proof {
        assert(unit_char(size_unit(size as nat)) == letter);
        assert(out@ =~= size_text(size as nat));
    }
    string_of(&out)
}

} // verus!
