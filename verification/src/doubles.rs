//! Whole numbers as IEEE 754 doubles, which are given by their bits.

use vstd::arithmetic::div_mod::lemma_fundamental_div_mod;
use vstd::arithmetic::power2::{lemma2_to64, lemma2_to64_rest, lemma_pow2_adds, lemma_pow2_pos, pow2};
use vstd::prelude::*;

verus! {

/// The number of significands, which is that of doubles between two powers of two.
pub const SIGNIFICANDS: u64 = 0x10_0000_0000_0000;

/// The bit that stands for a minus sign.
pub const SIGN: u64 = 0x8000_0000_0000_0000;

/// The biased exponent of a double.
pub open spec fn exponent_of(bits: u64) -> int {
    (bits / SIGNIFICANDS) as int % 0x800
}

/// The significand of a double, without its leading bit.
pub open spec fn fraction_of(bits: u64) -> int {
    bits as int % SIGNIFICANDS as int
}

/// The number `m / 2^k`, where it is whole.
pub open spec fn halved(m: nat, k: nat) -> Option<nat>
    decreases k,
{
    if k == 0 {
        Some(m)
    } else if m % 2 == 1 {
        None
    } else {
        halved(m / 2, (k - 1) as nat)
    }
}

/// The magnitude of a double, where it is a whole number below `2^53`. Up to there
/// every whole number is a double.
pub open spec fn whole_magnitude(bits: u64) -> Option<nat> {
    let exponent = exponent_of(bits);
    let fraction = fraction_of(bits);
    if exponent == 0 {
        if fraction == 0 {
            Some(0)
        } else {
            None
        }
    } else if exponent > 1075 {
        None
    } else {
        halved((SIGNIFICANDS + fraction) as nat, (1075 - exponent) as nat)
    }
}

/// The whole number below `2^53` that a double is, where it is not negative.
pub open spec fn exact_unsigned(bits: u64) -> Option<u64> {
    match whole_magnitude(bits) {
        Some(magnitude) => if bits >= SIGN && magnitude != 0 {
            None
        } else {
            Some(magnitude as u64)
        },
        None => None,
    }
}

/// The whole number between `-2^53` and `2^53` that a double is.
pub open spec fn exact_signed(bits: u64) -> Option<i64> {
    match whole_magnitude(bits) {
        Some(magnitude) => if bits >= SIGN {
            Some((-(magnitude as int)) as i64)
        } else {
            Some(magnitude as i64)
        },
        None => None,
    }
}

proof fn lemma_halved_is_less(m: nat, k: nat)
    ensures
        halved(m, k) matches Some(n) ==> n <= m,
    decreases k,
{
    if k > 0 && m % 2 == 0 {
        lemma_halved_is_less(m / 2, (k - 1) as nat);
    }
}

/// The magnitude of a double, where it is a whole number below `2^53`.
pub fn magnitude(bits: u64) -> (r: Option<u64>)
    ensures
        match r {
            Some(n) => whole_magnitude(bits) == Some(n as nat) && n < 0x20_0000_0000_0000,
            None => whole_magnitude(bits) is None,
        },
{
    let exponent: u64 = (bits / SIGNIFICANDS) % 0x800;
    let fraction: u64 = bits % SIGNIFICANDS;
    if exponent == 0 {
        if fraction == 0 {
            return Some(0);
        }
        return None;
    }
    if exponent > 1075 {
        return None;
    }
    let mut m: u64 = SIGNIFICANDS + fraction;
    let mut k: u64 = 1075 - exponent;
    proof {
        lemma_halved_is_less(m as nat, k as nat);
    }
    while k > 0
        invariant
            k <= 1075,
            m < 0x20_0000_0000_0000,
            exponent_of(bits) != 0,
            exponent_of(bits) <= 1075,
            whole_magnitude(bits) == halved(m as nat, k as nat),
        decreases k,
    {
        if m % 2 == 1 {
            return None;
        }
        m = m / 2;
        k -= 1;
    }
    Some(m)
}

/// The whole number below `2^53` that a double is, where it is not negative.
pub fn exact_unsigned_integer(bits: u64) -> (r: Option<u64>)
    ensures
        r == exact_unsigned(bits),
{
    match magnitude(bits) {
        Some(n) => {
            if bits >= SIGN && n != 0 {
                None
            } else {
                Some(n)
            }
        },
        None => None,
    }
}

/// The whole number between `-2^53` and `2^53` that a double is.
pub fn exact_signed_integer(bits: u64) -> (r: Option<i64>)
    ensures
        r == exact_signed(bits),
{
    match magnitude(bits) {
        Some(n) => {
            if bits >= SIGN {
                Some(-(n as i64))
            } else {
                Some(n as i64)
            }
        },
        None => None,
    }
}

// ---------------------------------------------------------------------------
// Nearest doubles
// ---------------------------------------------------------------------------

/// The exponent of the greatest power of two that is not above a number.
pub open spec fn binary_exponent(n: nat) -> nat
    decreases n,
{
    if n < 2 {
        0
    } else {
        1 + binary_exponent(n / 2)
    }
}

/// A quotient with its remainder rounded away: up where that is nearer, and to the
/// even one where both are as near.
pub open spec fn rounded(quotient: int, remainder: int, divisor: int) -> int {
    if 2 * remainder > divisor || (2 * remainder == divisor && quotient % 2 == 1) {
        quotient + 1
    } else {
        quotient
    }
}

/// The number scaled by a power of two so that it has 53 bits, rounded where it has
/// more.
pub open spec fn significand(n: nat) -> int {
    let e = binary_exponent(n);
    if e <= 52 {
        (n * pow2((52 - e) as nat)) as int
    } else {
        let unit = pow2((e - 52) as nat) as int;
        rounded(n as int / unit, n as int % unit, unit)
    }
}

/// The bits of the double that is nearest to a number.
pub open spec fn nearest(n: nat) -> int {
    if n == 0 {
        0
    } else {
        (binary_exponent(n) + 1023) * SIGNIFICANDS + significand(n) - SIGNIFICANDS
    }
}

proof fn lemma_binary_exponent(n: nat)
    requires
        n > 0,
    ensures
        pow2(binary_exponent(n)) <= n < 2 * pow2(binary_exponent(n)),
    decreases n,
{
    lemma2_to64();
    if n >= 2 {
        lemma_binary_exponent(n / 2);
        let e = binary_exponent(n / 2);
        lemma_pow2_adds(1, e);
        assert(pow2(1 + e) == 2 * pow2(e));
    }
}

proof fn lemma_exponent_is_unique(n: nat, e: nat)
    requires
        n > 0,
        pow2(e) <= n < 2 * pow2(e),
    ensures
        binary_exponent(n) == e,
    decreases e,
{
    lemma2_to64();
    if e == 0 {
        assert(n == 1);
    } else {
        lemma_pow2_adds(1, (e - 1) as nat);
        assert(pow2(e) == 2 * pow2((e - 1) as nat));
        lemma_pow2_pos((e - 1) as nat);
        assert(n >= 2);
        lemma_exponent_is_unique(n / 2, (e - 1) as nat);
    }
}

/// The bits of the double that is nearest to a number.
pub fn nearest_double(n: u64) -> (r: u64)
    ensures
        r == nearest(n as nat),
        r < SIGN,
{
    if n == 0 {
        return 0;
    }
    proof {
        lemma2_to64();
        lemma2_to64_rest();
    }
    let mut e: u64 = 0;
    let mut p: u64 = 1;
    while n / 2 >= p
        invariant
            n > 0,
            e <= 63,
            p == pow2(e as nat),
            0 < p <= n,
        decreases n - p,
    {
        proof {
            lemma_pow2_adds(1, e as nat);
            lemma2_to64();
            lemma2_to64_rest();
            if e >= 63 {
                assert(p == 0x8000_0000_0000_0000u64);
            }
        }
        p = p * 2;
        e += 1;
    }
    proof {
        lemma_exponent_is_unique(n as nat, e as nat);
    }
    if e <= 52 {
        let scale: u64 = SIGNIFICANDS / p;
        proof {
            lemma_pow2_adds(e as nat, (52 - e) as nat);
            let other = pow2((52 - e) as nat) as int;
            assert(SIGNIFICANDS as int == p as int * other);
            assert(SIGNIFICANDS as int / p as int == other) by (nonlinear_arith)
                requires
                    SIGNIFICANDS as int == p as int * other,
                    p > 0,
            ;
            assert(p * scale == SIGNIFICANDS);
            assert(n * scale < 2 * SIGNIFICANDS) by (nonlinear_arith)
                requires
                    n < 2 * p,
                    p * scale == SIGNIFICANDS,
                    scale > 0,
            ;
            assert(n * scale >= SIGNIFICANDS) by (nonlinear_arith)
                requires
                    n >= p,
                    p * scale == SIGNIFICANDS,
                    scale > 0,
            ;
        }
        let scaled: u64 = n * scale;
        (e + 1023) * SIGNIFICANDS + (scaled - SIGNIFICANDS)
    } else {
        let unit: u64 = p / SIGNIFICANDS;
        proof {
            lemma_pow2_adds(52, (e - 52) as nat);
            let other = pow2((e - 52) as nat) as int;
            assert(p as int == SIGNIFICANDS as int * other);
            lemma_pow2_pos((e - 52) as nat);
            assert(p as int / SIGNIFICANDS as int == other);
        }
        let quotient: u64 = n / unit;
        let remainder: u64 = n % unit;
        proof {
            lemma_fundamental_div_mod(n as int, unit as int);
            assert(quotient >= SIGNIFICANDS) by (nonlinear_arith)
                requires
                    n == unit * quotient + remainder,
                    remainder < unit,
                    n >= SIGNIFICANDS * unit,
                    unit > 0,
            ;
            assert(quotient < 2 * SIGNIFICANDS) by (nonlinear_arith)
                requires
                    n == unit * quotient + remainder,
                    remainder >= 0,
                    n < 2 * SIGNIFICANDS * unit,
                    unit > 0,
            ;
            if e > 63 {
                lemma_too_large(e as nat);
            }
            assert(unit <= 2048);
        }
        let up = 2 * remainder > unit || (2 * remainder == unit && quotient % 2 == 1);
        let scaled: u64 = if up {
            quotient + 1
        } else {
            quotient
        };
        (e + 1023) * SIGNIFICANDS + (scaled - SIGNIFICANDS)
    }
}

proof fn lemma_halved_back(n: nat, k: nat)
    ensures
        halved(n * pow2(k), k) == Some(n),
    decreases k,
{
    lemma2_to64();
    if k > 0 {
        let half = n * pow2((k - 1) as nat);
        lemma_pow2_adds(1, (k - 1) as nat);
        assert(n * pow2(k) == 2 * half) by (nonlinear_arith)
            requires
                pow2(k) == 2 * pow2((k - 1) as nat),
                half == n * pow2((k - 1) as nat),
        ;
        lemma_halved_back(n, (k - 1) as nat);
    } else {
        assert(n * pow2(0) == n) by (nonlinear_arith)
            requires
                pow2(0) == 1,
        ;
    }
}

/// A whole number below `2^53` is read back from the double that is nearest to it.
pub proof fn law_exact_numbers_are_read_back(n: u64)
    requires
        n < 0x20_0000_0000_0000,
    ensures
        0 <= nearest(n as nat) < SIGN,
        exact_unsigned(nearest(n as nat) as u64) == Some(n),
{
    if n > 0 {
        lemma2_to64();
        lemma2_to64_rest();
        let e = binary_exponent(n as nat);
        lemma_binary_exponent(n as nat);
        if e > 52 {
            lemma_pow2_adds(53, (e - 53) as nat);
            lemma_pow2_pos((e - 53) as nat);
            assert(pow2(53) * pow2((e - 53) as nat) >= pow2(53)) by (nonlinear_arith)
                requires
                    pow2((e - 53) as nat) >= 1,
            ;
        }
        let k = (52 - e) as nat;
        let scaled = n as nat * pow2(k);
        lemma_pow2_adds(e, k);
        lemma_pow2_pos(k);
        assert(SIGNIFICANDS <= scaled < 2 * SIGNIFICANDS) by (nonlinear_arith)
            requires
                pow2(e) <= n < 2 * pow2(e),
                scaled == n as nat * pow2(k),
                pow2(e) * pow2(k) == SIGNIFICANDS,
                pow2(k) > 0,
        ;
        lemma_halved_back(n as nat, k);
        let bits = nearest(n as nat);
        let fraction = scaled - SIGNIFICANDS;
        assert(bits == (e + 1023) * SIGNIFICANDS + fraction);
        assert(bits / SIGNIFICANDS as int == e + 1023);
        assert(bits % SIGNIFICANDS as int == fraction);
        assert(exponent_of(bits as u64) == e + 1023);
    }
}

proof fn lemma_too_large(e: nat)
    requires
        e > 63,
    ensures
        pow2(e) > u64::MAX,
{
    lemma2_to64();
    lemma_pow2_adds(64, (e - 64) as nat);
    lemma_pow2_pos((e - 64) as nat);
    assert(pow2(64) * pow2((e - 64) as nat) >= pow2(64)) by (nonlinear_arith)
        requires
            pow2((e - 64) as nat) >= 1,
    ;
}

} // verus!
