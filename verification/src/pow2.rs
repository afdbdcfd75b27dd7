//! Powers of two, as the growth policy of `SmallVec` uses them.

use vstd::prelude::*;

verus! {

/// `p` is one of 1, 2, 4, 8, ...
pub open spec fn is_power_of_two(p: nat) -> bool
    decreases p,
{
    if p == 0 {
        false
    } else if p == 1 {
        true
    } else if p % 2 == 1 {
        false
    } else {
        is_power_of_two(p / 2)
    }
}

/// The least power of two that is at least `n`.
pub open spec fn next_power_of_two(n: nat) -> nat
    decreases n,
{
    if n <= 1 {
        1
    } else {
        2 * next_power_of_two(((n + 1) / 2) as nat)
    }
}

/// The largest power of two that a `usize` holds.
pub open spec fn max_usize_power_of_two() -> nat {
    (usize::MAX / 2 + 1) as nat
}

/// `2` raised to `k`.
spec fn two_to(k: nat) -> nat
    decreases k,
{
    if k == 0 {
        1
    } else {
        2 * two_to((k - 1) as nat)
    }
}

proof fn lemma_two_to_is_power_of_two(k: nat)
    ensures
        is_power_of_two(two_to(k)),
    decreases k,
{
    if k > 0 {
        lemma_two_to_is_power_of_two((k - 1) as nat);
        assert(two_to(k) / 2 == two_to((k - 1) as nat));
    }
}

/// Of two distinct powers of two, the larger is at least twice the smaller.
pub proof fn lemma_power_of_two_gap(p: nat, q: nat)
    requires
        is_power_of_two(p),
        is_power_of_two(q),
        p < q,
    ensures
        2 * p <= q,
    decreases q,
{
    let h = q / 2;
    assert(q >= 2);
    assert(q % 2 == 0);
    assert(is_power_of_two(h));
    if h > p {
        lemma_power_of_two_gap(p, h);
    } else if h < p {
        lemma_power_of_two_gap(h, p);
    }
}

/// The largest power of two in `usize` is itself a power of two.
pub proof fn lemma_max_usize_power_of_two()
    ensures
        is_power_of_two(max_usize_power_of_two()),
        2 * max_usize_power_of_two() == usize::MAX + 1,
{
    assert(usize::MAX == 0xffff_ffff || usize::MAX == 0xffff_ffff_ffff_ffff);
    if usize::MAX == 0xffff_ffff {
        assert(two_to(31) == 0x8000_0000) by {
            reveal_with_fuel(two_to, 32);
        }
        lemma_two_to_is_power_of_two(31);
    } else {
        assert(two_to(63) == 0x8000_0000_0000_0000) by {
            reveal_with_fuel(two_to, 64);
        }
        lemma_two_to_is_power_of_two(63);
    }
}

/// A power of two `p` with `n <= p` and `p / 2 < n` (or `p == 1`) is exactly
/// the least power of two at least `n`.
pub proof fn lemma_least_power_of_two(n: nat, p: nat)
    requires
        is_power_of_two(p),
        n <= p,
        p == 1 || p / 2 < n,
    ensures
        p == next_power_of_two(n),
    decreases n,
{
    if n <= 1 {
        if p != 1 {
            assert(p % 2 == 0);
        }
    } else {
        assert(p >= 2);
        assert(p % 2 == 0);
        let q = p / 2;
        let m = ((n + 1) / 2) as nat;
        assert(is_power_of_two(q));
        if q != 1 {
            assert(q / 2 < m);
        }
        lemma_least_power_of_two(m, q);
    }
}

/// `next_power_of_two(n)` is a power of two, at least `n`, and the least such.
pub proof fn lemma_next_power_of_two(n: nat)
    ensures
        is_power_of_two(next_power_of_two(n)),
        n <= next_power_of_two(n),
        next_power_of_two(n) == 1 || next_power_of_two(n) / 2 < n,
    decreases n,
{
    if n > 1 {
        let m = ((n + 1) / 2) as nat;
        lemma_next_power_of_two(m);
        let q = next_power_of_two(m);
        assert((2 * q) / 2 == q);
        assert((2 * q) % 2 == 0);
    }
}

/// The least power of two that is at least `n`, or `None` when it does not
/// fit in a `usize` (as `usize::checked_next_power_of_two`).
pub fn checked_next_power_of_two(n: usize) -> (r: Option<usize>)
    ensures
        r is Some <==> n <= max_usize_power_of_two(),
        r matches Some(p) ==> p == next_power_of_two(n as nat),
{
    let mut p: usize = 1;
    while p < n
        invariant
            is_power_of_two(p as nat),
            p == 1 || p / 2 < n,
        decreases usize::MAX - p,
    {
        if p > usize::MAX / 2 {
            return None;
        }
        assert((2 * p) / 2 == p);
        assert((2 * p) % 2 == 0);
        p = p * 2;
    }
    proof {
        lemma_least_power_of_two(n as nat, p as nat);
        lemma_max_usize_power_of_two();
        if p > max_usize_power_of_two() {
            lemma_power_of_two_gap(max_usize_power_of_two(), p as nat);
        }
    }
    Some(p)
}

} // verus!
