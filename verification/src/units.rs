use vstd::prelude::*;

use crate::text::{decimal, digit_char, push_char, push_decimal};

verus! {

pub open spec fn pow2(k: nat) -> nat
    decreases k,
{
    if k == 0 { 1 } else { 2 * pow2((k - 1) as nat) }
}

/// The number of binary digits of `n` (0 for 0).
pub open spec fn bit_len(n: nat) -> nat
    decreases n,
{
    if n == 0 { 0 } else { 1 + bit_len(n / 2) }
}

/// The value `n as f64` takes: `n` rounded to 53 significant bits, ties to even.
pub open spec fn f64_value(n: nat) -> nat {
    if bit_len(n) <= 53 {
        n
    } else {
        let unit = pow2((bit_len(n) - 53) as nat);
        let q = n / unit;
        let r = n % unit;
        let q2 = if r * 2 > unit || (r * 2 == unit && q % 2 == 1) { q + 1 } else { q };
        q2 * unit
    }
}

/// `n` bytes in GiB, in hundredths, as `{:.2}` rounds `n as f64 / 1024^3`: the exact
/// binary value rounded to the nearest hundredth, ties to even.
pub open spec fn gib_hundredths(n: nat) -> nat {
    let v = f64_value(n) * 100;
    let d = pow2(30);
    let q = v / d;
    let r = v % d;
    if r * 2 > d || (r * 2 == d && q % 2 == 1) { q + 1 } else { q }
}

/// A count of hundredths written with two decimal places.
pub open spec fn two_places(h: nat) -> Seq<char> {
    decimal(h / 100) + seq!['.', digit_char(((h % 100) / 10) as int), digit_char((h % 10) as int)]
}

/// `format!("{:.2}", n as f64 / 1024f64.powi(3))`.
pub open spec fn gib_text(n: nat) -> Seq<char> {
    two_places(gib_hundredths(n))
}

proof fn lemma_pow2_add(a: nat, b: nat)
    ensures
        pow2(a + b) == pow2(a) * pow2(b),
    decreases a,
{
    if a > 0 {
        let a1 = (a - 1) as nat;
        lemma_pow2_add(a1, b);
        assert((a + b - 1) as nat == a1 + b);
        assert(pow2(a + b) == 2 * pow2(a1 + b));
        assert(pow2(a) == 2 * pow2(a1));
        let x = pow2(a1);
        let y = pow2(b);
        assert(2 * (x * y) == (2 * x) * y) by (nonlinear_arith);
        assert(pow2(a + b) == pow2(a) * pow2(b));
    } else {
        assert(a + b == b);
        assert(pow2(a) == 1);
        assert(pow2(a + b) == pow2(a) * pow2(b));
    }
}

proof fn lemma_pow2_pos(a: nat)
    ensures
        pow2(a) >= 1,
    decreases a,
{
    if a > 0 {
        lemma_pow2_pos((a - 1) as nat);
    }
}

proof fn lemma_pow2_mono(a: nat, b: nat)
    requires
        a <= b,
    ensures
        pow2(a) <= pow2(b),
    decreases b,
{
    if a < b {
        lemma_pow2_mono(a, (b - 1) as nat);
        lemma_pow2_pos((b - 1) as nat);
    }
}

proof fn lemma_bit_len(n: nat)
    ensures
        n < pow2(bit_len(n)),
        n > 0 ==> pow2((bit_len(n) - 1) as nat) <= n,
    decreases n,
{
    if n > 0 {
        lemma_bit_len(n / 2);
    }
}

proof fn lemma_pow2_values()
    ensures
        pow2(30) == 1073741824,
        pow2(53) == 9007199254740992,
        pow2(64) == 18446744073709551616,
{
    reveal_with_fuel(pow2, 65);
}

/// Appends two decimal places of a count of hundredths.
fn push_two_places(s: &mut String, h: u64)
    ensures
        final(s)@ == old(s)@ + two_places(h as nat),
{
    push_decimal(s, h / 100);
    let ghost mid = s@;
    let tens = (h % 100) / 10;
    let ones = h % 10;
    push_char(s, '.');
    push_char(s, crate::text::digit_char_of(tens));
    push_char(s, crate::text::digit_char_of(ones));
    assert(s@ == mid + seq!['.', digit_char(tens as int), digit_char(ones as int)]);
}

/// `{:.2}` of `n` bytes in GiB, computed exactly with integers.
pub fn push_gib(s: &mut String, n: u64)
    ensures
        final(s)@ == old(s)@ + gib_text(n as nat),
{
    let mut m: u64 = n;
    let mut b: u64 = 0;
    proof {
        lemma_bit_len(n as nat);
        lemma_pow2_values();
        if bit_len(n as nat) > 64 {
            lemma_pow2_mono(64, (bit_len(n as nat) - 1) as nat);
        }
    }
    while m > 0
        invariant
            bit_len(n as nat) == b + bit_len(m as nat),
            bit_len(n as nat) <= 64,
        decreases m,
    {
        m = m / 2;
        b = b + 1;
    }
    let value: u128 = if b <= 53 {
        n as u128
    } else {
        let shift = b - 53;
        let mut unit: u128 = 1;
        let mut k: u64 = 0;
        while k < shift
            invariant
                k <= shift <= 11,
                unit == pow2(k as nat),
            decreases shift - k,
        {
            proof {
                lemma_pow2_mono(k as nat, 11);
                reveal_with_fuel(pow2, 12);
            }
            unit = unit * 2;
            k = k + 1;
        }
        proof {
            lemma_pow2_pos(shift as nat);
        }
        let q: u128 = n as u128 / unit;
        let r: u128 = n as u128 % unit;
        proof {
            lemma_pow2_add(53, shift as nat);
            lemma_pow2_pos(shift as nat);
            assert(q < pow2(53)) by (nonlinear_arith)
                requires
                    q == (n as u128) / unit,
                    n < pow2(53) * unit,
                    unit >= 1;
        }
        let q2: u128 = if r * 2 > unit || (r * 2 == unit && q % 2 == 1) { q + 1 } else { q };
        proof {
            lemma_pow2_mono(shift as nat, 11);
            reveal_with_fuel(pow2, 12);
            assert(q2 * unit <= pow2(53) * pow2(11)) by (nonlinear_arith)
                requires
                    q2 <= pow2(53),
                    unit <= pow2(11);
            lemma_pow2_add(53, 11);
        }
        q2 * unit
    };
    assert(value == f64_value(n as nat));
    let v: u128 = value * 100;
    let d: u128 = 1073741824;
    let q: u128 = v / d;
    let r: u128 = v % d;
    let h: u128 = if r * 2 > d || (r * 2 == d && q % 2 == 1) { q + 1 } else { q };
    assert(h == gib_hundredths(n as nat));
    assert(h <= 0xffff_ffff_ffff_ffff);
    push_two_places(s, h as u64);
}

} // verus!
