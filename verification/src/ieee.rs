//! Integers as floats: the bits of the IEEE 754 form of a whole number,
//! where the form holds the number exactly.

use vstd::prelude::*;

verus! {

/// The number of binary digits of a number; zero has none.
pub open spec fn bit_width(n: nat) -> nat
    decreases n,
{
    if n == 0 {
        0
    } else {
        1 + bit_width(n / 2)
    }
}

/// A number doubled `k` times.
pub open spec fn doubled(n: nat, k: nat) -> nat
    decreases k,
{
    if k == 0 {
        n
    } else {
        2 * doubled(n, (k - 1) as nat)
    }
}

/// A number halved `k` times, where no halving leaves a remainder.
pub open spec fn halved(n: nat, k: nat) -> Option<nat>
    decreases k,
{
    if k == 0 {
        Some(n)
    } else {
        match halved(n, (k - 1) as nat) {
            Some(h) => if h % 2 == 0 {
                Some(h / 2)
            } else {
                None
            },
            None => None,
        }
    }
}

/// The significand of as many digits as the form has, `digits`, for a
/// number that is not zero: the number doubled until it has that many
/// digits, or halved until it has, where nothing is lost by that.
pub open spec fn significand(n: nat, digits: nat) -> Option<nat> {
    if bit_width(n) <= digits {
        Some(doubled(n, (digits - bit_width(n)) as nat))
    } else {
        halved(n, (bit_width(n) - digits) as nat)
    }
}

/// The bits of the float that is the whole number `n`, in a form with a
/// significand of `digits` binary digits, of which the first is not
/// written, and an exponent with the given bias: zero is all bits zero; any
/// other number is written with the exponent of its first digit and with
/// the digits after the first. `None` where the number has more digits than
/// the form holds.
pub open spec fn float_bits(n: nat, digits: nat, bias: nat) -> Option<nat> {
    if n == 0 {
        Some(0)
    } else {
        match significand(n, digits) {
            Some(s) => {
                let first = doubled(1, (digits - 1) as nat);
                if first <= s < 2 * first {
                    Some(((bit_width(n) - 1 + bias) * first + (s - first)) as nat)
                } else {
                    None
                }
            },
            None => None,
        }
    }
}

/// The 64 bits of the double-precision float that is the whole number `n`.
pub open spec fn double_of(n: nat) -> Option<nat> {
    float_bits(n, 53, 1023)
}

/// The 32 bits of the single-precision float that is the whole number `n`.
pub open spec fn single_of(n: nat) -> Option<nat> {
    float_bits(n, 24, 127)
}

/// The number of binary digits of a number.
fn width(n: u64) -> (w: u32)
    ensures
        w == bit_width(n as nat),
        w <= 64,
{
    let mut m: u64 = n;
    let mut w: u32 = 0;
    proof {
        lemma_two_to_the_64();
    }
    while m > 0
        invariant
            bit_width(n as nat) == w + bit_width(m as nat),
            w <= 64,
            w < 64 || m == 0,
            w <= 63 ==> m < doubled(1, (64 - w) as nat),
        decreases m,
    {
        proof {
            assert(doubled(1, (64 - w) as nat) == 2 * doubled(1, (63 - w) as nat));
            if w == 63 {
                assert(doubled(1, 1) == 2 * doubled(1, 0));
            }
        }
        m = m / 2;
        w = w + 1;
    }
    w
}

/// A power of two that is a given number of doublings of one.
proof fn lemma_two_to_the_64()
    ensures
        doubled(1, 64) == 0x1_0000_0000_0000_0000,
        doubled(1, 52) == 0x10_0000_0000_0000,
        doubled(1, 23) == 0x80_0000,
{
    reveal_with_fuel(doubled, 65);
}

/// The bits of the float that is the whole number `n`, in a form with a
/// significand of `digits` binary digits and an exponent with the given
/// bias.
fn bits_of(n: u64, digits: u32, bias: u32) -> (r: Option<u64>)
    requires
        (digits == 53 && bias == 1023) || (digits == 24 && bias == 127),
    ensures
        match float_bits(n as nat, digits as nat, bias as nat) {
            Some(bits) => r == Some(bits as u64) && bits < 0x8000_0000_0000_0000 && (digits == 24
                ==> bits < 0x8000_0000),
            None => r is None,
        },
{
    if n == 0 {
        return Some(0);
    }
    proof {
        lemma_two_to_the_64();
    }
    let w: u32 = width(n);
    let mut s: u128 = n as u128;
    if w <= digits {
        let mut k: u32 = 0;
        while k < digits - w
            invariant
                w <= digits <= 53,
                k <= digits - w,
                s == doubled(n as nat, k as nat),
                s <= n * doubled(1, k as nat),
                doubled(1, k as nat) <= doubled(1, 53),
                n <= 0xFFFF_FFFF_FFFF_FFFF,
            decreases digits - w - k,
        {
            proof {
                reveal_with_fuel(doubled, 2);
                lemma_doubled_grows((k + 1) as nat, 53);
                assert(doubled(1, 53) <= 0x20_0000_0000_0000) by {
                    reveal_with_fuel(doubled, 54);
                }
                assert(n * doubled(1, k as nat) <= 0xFFFF_FFFF_FFFF_FFFF * 0x20_0000_0000_0000)
                    by (nonlinear_arith)
                    requires
                        n <= 0xFFFF_FFFF_FFFF_FFFF,
                        doubled(1, k as nat) <= 0x20_0000_0000_0000,
                ;
                assert(2 * (n * doubled(1, k as nat)) == n * (2 * doubled(1, k as nat)))
                    by (nonlinear_arith);
            }
            s = s * 2;
            k = k + 1;
        }
    } else {
        let mut k: u32 = 0;
        while k < w - digits
            invariant
                digits < w <= 64,
                k <= w - digits,
                n > 0,
                w == bit_width(n as nat),
                halved(n as nat, k as nat) == Some(s as nat),
            decreases w - digits - k,
        {
            if s % 2 != 0 {
                proof {
                    lemma_halved_lost(n as nat, (k + 1) as nat, (w - digits) as nat);
                }
                return None;
            }
            s = s / 2;
            k = k + 1;
        }
    }
    let first: u128 = if digits == 53 {
        0x10_0000_0000_0000
    } else {
        0x80_0000
    };
    assert(first == doubled(1, (digits - 1) as nat));
    if s < first || s >= 2 * first {
        return None;
    }
    let exponent: u128 = (w - 1 + bias) as u128;
    Some((exponent * first + (s - first)) as u64)
}

/// More doublings of one give no less.
proof fn lemma_doubled_grows(k: nat, m: nat)
    requires
        k <= m,
    ensures
        doubled(1, k) <= doubled(1, m),
    decreases m,
{
    if k < m {
        lemma_doubled_grows(k, (m - 1) as nat);
    }
}

/// Once a halving has left a remainder, the number cannot be halved
/// further.
proof fn lemma_halved_lost(n: nat, k: nat, m: nat)
    requires
        k <= m,
        halved(n, k) is None,
    ensures
        halved(n, m) is None,
    decreases m,
{
    if k < m {
        lemma_halved_lost(n, k, (m - 1) as nat);
    }
}

/// The bits of the float that is the integer of the given sign and
/// magnitude: those of the magnitude, with the sign in the first bit.
pub open spec fn signed_bits(negative: bool, bits: Option<nat>, sign: nat) -> Option<nat> {
    match bits {
        Some(b) => if negative {
            Some(b + sign)
        } else {
            Some(b)
        },
        None => None,
    }
}

/// The 64 bits of the double-precision float that is the integer of the
/// given sign and magnitude; `None` where no double is that integer.
pub fn double_bits(negative: bool, magnitude: u64) -> (r: Option<u64>)
    ensures
        match signed_bits(negative, double_of(magnitude as nat), 0x8000_0000_0000_0000) {
            Some(bits) => r == Some(bits as u64) && bits <= 0xFFFF_FFFF_FFFF_FFFF,
            None => r is None,
        },
{
    match bits_of(magnitude, 53, 1023) {
        Some(bits) => {
            if negative {
                Some(bits + 0x8000_0000_0000_0000)
            } else {
                Some(bits)
            }
        },
        None => None,
    }
}

/// The 32 bits of the single-precision float that is the integer of the
/// given sign and magnitude; `None` where no single is that integer.
pub fn single_bits(negative: bool, magnitude: u64) -> (r: Option<u32>)
    ensures
        match signed_bits(negative, single_of(magnitude as nat), 0x8000_0000) {
            Some(bits) => r == Some(bits as u32) && bits <= 0xFFFF_FFFF,
            None => r is None,
        },
{
    match bits_of(magnitude, 24, 127) {
        Some(bits) => {
            if negative {
                Some((bits + 0x8000_0000) as u32)
            } else {
                Some(bits as u32)
            }
        },
        None => None,
    }
}

} // verus!
