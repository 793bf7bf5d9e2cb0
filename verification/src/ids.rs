//! Normalisation of external chat identifiers.
//!
//! The broadcast-channel identifier scheme prefixes a channel's numeric id
//! with `-100` in its decimal form; the pipeline stores the id with that
//! prefix stripped. Stripping the prefix of `-100x…x` leaves the remaining
//! digits (`-100` alone leaves nothing, which reads as zero); any other id
//! is kept as it is.

use vstd::prelude::*;

verus! {

/// Ten to the `k`.
pub open spec fn pow10(k: nat) -> nat
    decreases k,
{
    if k == 0 {
        1
    } else {
        10 * pow10((k - 1) as nat)
    }
}

/// The number of decimal digits of `m`, one for the values below ten.
pub open spec fn num_digits(m: nat) -> nat
    decreases m,
{
    if m < 10 {
        1
    } else {
        1 + num_digits(m / 10)
    }
}

/// `pow10` grows with its exponent.
proof fn lemma_pow10_monotone(k1: nat, k2: nat)
    requires
        k1 <= k2,
    ensures
        pow10(k1) <= pow10(k2),
    decreases k2,
{
    if k1 < k2 {
        lemma_pow10_monotone(k1, (k2 - 1) as nat);
        assert(pow10(k2) == 10 * pow10((k2 - 1) as nat));
    }
}

/// A positive number lies between the powers of ten that its digit count
/// names.
proof fn lemma_num_digits_bounds(m: nat)
    requires
        m > 0,
    ensures
        pow10((num_digits(m) - 1) as nat) <= m,
        m < pow10(num_digits(m)),
    decreases m,
{
    if m < 10 {
    } else {
        lemma_num_digits_bounds(m / 10);
        let d = num_digits(m / 10);
        assert(pow10(d) == 10 * pow10((d - 1) as nat));
        assert(pow10((d + 1) as nat) == 10 * pow10(d));
        assert(10 * (m / 10) <= m < 10 * (m / 10) + 10);
        assert(10 * pow10((d - 1) as nat) <= 10 * (m / 10)) by (nonlinear_arith)
            requires
                pow10((d - 1) as nat) <= m / 10,
        ;
        assert(10 * (m / 10) + 10 <= 10 * pow10(d)) by (nonlinear_arith)
            requires
                m / 10 < pow10(d),
        ;
    }
}

/// Every 64-bit magnitude has at most twenty decimal digits.
proof fn lemma_num_digits_le_20(m: nat)
    requires
        m < 0x1_0000_0000_0000_0000,
    ensures
        num_digits(m) <= 20,
{
    if m == 0 {
    } else {
        lemma_num_digits_bounds(m);
        reveal_with_fuel(pow10, 21);
        assert(pow10(20) == 100000000000000000000);
        if num_digits(m) > 20 {
            lemma_pow10_monotone(20, (num_digits(m) - 1) as nat);
        }
    }
}

/// Whether this id carries the broadcast-channel prefix: it is negative and
/// the decimal digits of its magnitude begin with `100`.
pub open spec fn strip_applies(id: i64) -> bool {
    id < 0 && {
        let m = (-(id as int)) as nat;
        num_digits(m) >= 3 && m as int / (pow10((num_digits(m) - 3) as nat) as int) == 100
    }
}

/// The stored id for an external chat id: the digits after the
/// broadcast-channel prefix when it is present, the id itself otherwise.
pub open spec fn normalized_chat_id(id: i64) -> i64 {
    if strip_applies(id) {
        let m = (-(id as int)) as nat;
        (m as int % (pow10((num_digits(m) - 3) as nat) as int)) as i64
    } else {
        id
    }
}

/// Strips the broadcast-channel prefix from an external chat id.
pub fn normalize_chat_id(id: i64) -> (r: i64)
    ensures
        r == normalized_chat_id(id),
{
    if id >= 0 {
        return id;
    }
    let m: u64 = (-(id as i128)) as u64;
    proof {
        assert(m == (-(id as int)) as nat);
        assert(m > 0);
        lemma_num_digits_bounds(m as nat);
        lemma_num_digits_le_20(m as nat);
    }
    let mut d: u64 = 1;
    let mut tmp: u64 = m;
    while tmp >= 10
        invariant
            num_digits(m as nat) == d - 1 + num_digits(tmp as nat),
            num_digits(m as nat) <= 20,
            1 <= d,
            d <= num_digits(m as nat),
        decreases tmp,
    {
        tmp = tmp / 10;
        proof {
            assert(num_digits(tmp as nat) >= 1);
        }
        d = d + 1;
    }
    proof {
        assert(num_digits(tmp as nat) == 1);
        assert(num_digits(m as nat) == d);
    }
    if d < 3 {
        return id;
    }
    let mut p: u64 = 1;
    let mut k: u64 = 0;
    while k < d - 3
        invariant
            d == num_digits(m as nat),
            3 <= d,
            m > 0,
            pow10((num_digits(m as nat) - 1) as nat) <= m,
            k <= d - 3,
            p == pow10(k as nat),
            p >= 1,
        decreases d - 3 - k,
    {
        proof {
            lemma_pow10_monotone((k + 1) as nat, (d - 3) as nat);
            lemma_pow10_monotone((d - 3) as nat, (d - 1) as nat);
            assert(pow10((k + 1) as nat) == 10 * pow10(k as nat));
        }
        p = p * 10;
        k = k + 1;
    }
    if m / p == 100 {
        proof {
            assert(100 * p <= m) by (nonlinear_arith)
                requires
                    p > 0,
                    m / p == 100,
            ;
            assert(m % p < p) by (nonlinear_arith)
                requires
                    p > 0,
            ;
        }
        (m % p) as i64
    } else {
        id
    }
}

} // verus!
