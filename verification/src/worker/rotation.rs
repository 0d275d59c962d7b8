//! The anti-starvation rotation: which tiers a claim may take.
use vstd::arithmetic::div_mod::{
    lemma_fundamental_div_mod, lemma_fundamental_div_mod_converse, lemma_mod_multiples_basic,
    lemma_mod_multiples_vanish,
};
use vstd::prelude::*;

verus! {

/// The floor that admits all tiers, high first.
pub const FLOOR_ALL: i16 = 0;

/// The floor that reserves a claim for Normal and Low.
pub const FLOOR_NORMAL: i16 = 1;

/// The floor that reserves a claim for Low only.
pub const FLOOR_LOW: i16 = 2;

/// The priority floor of the `counter`-th claim.
pub open spec fn rotation_floor(counter: nat, ratio: Option<u32>) -> i16 {
    match ratio {
        Some(r) => if r < 2 {
            0i16
        } else if counter % ((r * r) as nat) == 0 {
            2i16
        } else if counter % (r as nat) == 0 {
            1i16
        } else {
            0i16
        },
        None => 0i16,
    }
}

/// The priority floor for a claim, given the rotation counter and ratio.
///
/// With ratio `r`, most claims are unconstrained (high-first); every `r`-th claim
/// reserves a slot for Normal and Low by excluding High, and every `r²`-th claim
/// reserves one for Low only. `None`, or a ratio below 2, is strict priority: no
/// reservation, so a sustained stream of high-priority work can starve lower tiers.
pub fn floor_for(counter: u64, ratio: Option<u32>) -> (r: i16)
    ensures
        r == rotation_floor(counter as nat, ratio),
{
    match ratio {
        Some(r) => {
            if r < 2 {
                return FLOOR_ALL;
            }
            let r: u64 = r as u64;
            assert(0 < r * r <= 0xffff_ffff * 0xffff_ffff) by (nonlinear_arith)
                requires
                    2 <= r <= 0xffff_ffff,
            ;
            if counter % (r * r) == 0 {
                FLOOR_LOW
            } else if counter % r == 0 {
                FLOOR_NORMAL
            } else {
                FLOOR_ALL
            }
        },
        None => FLOOR_ALL,
    }
}

/// Strict priority never reserves a claim.
pub proof fn strict_priority_never_reserves(counter: nat, ratio: Option<u32>)
    requires
        ratio matches Some(r) ==> r < 2,
    ensures
        rotation_floor(counter, ratio) == FLOOR_ALL,
{
}

/// The first multiple of `n` at or after `start`.
spec fn next_multiple(start: nat, n: nat) -> nat {
    if start % n == 0 {
        start
    } else {
        (start + (n - start % n)) as nat
    }
}

proof fn lemma_next_multiple(start: nat, n: nat)
    requires
        n > 0,
    ensures
        start <= next_multiple(start, n) < start + n,
        next_multiple(start, n) % n == 0,
{
    if start % n != 0 {
        lemma_fundamental_div_mod(start as int, n as int);
        let q = start as int / n as int;
        assert(next_multiple(start, n) == n * q + n);
        assert(n * q + n == n * (q + 1)) by (nonlinear_arith);
        lemma_mod_multiples_basic(q + 1, n as int);
        assert((q + 1) * n == n * (q + 1)) by (nonlinear_arith);
    }
}

/// Lower tiers are never starved: among any `r²` consecutive claims one is reserved
/// for Low, so Low work is claimed before anything more urgent at least that often.
pub proof fn every_window_reserves_low(start: nat, ratio: u32) -> (at: nat)
    requires
        ratio >= 2,
    ensures
        start <= at < start + ratio * ratio,
        rotation_floor(at, Some(ratio)) == FLOOR_LOW,
{
    let n = (ratio * ratio) as nat;
    assert(n > 0) by (nonlinear_arith)
        requires
            ratio >= 2,
            n == ratio * ratio,
    ;
    lemma_next_multiple(start, n);
    next_multiple(start, n)
}

/// Among any `r` consecutive claims one excludes High, so Normal and Low work is
/// never starved by it.
pub proof fn every_window_excludes_high(start: nat, ratio: u32) -> (at: nat)
    requires
        ratio >= 2,
    ensures
        start <= at < start + ratio,
        rotation_floor(at, Some(ratio)) >= FLOOR_NORMAL,
{
    lemma_next_multiple(start, ratio as nat);
    next_multiple(start, ratio as nat)
}

/// The claim after a reserved one is unconstrained, so High work waits for at most
/// one claim.
pub proof fn reserved_claims_are_not_adjacent(counter: nat, ratio: u32)
    requires
        ratio >= 2,
        rotation_floor(counter, Some(ratio)) != FLOOR_ALL,
    ensures
        rotation_floor(counter + 1, Some(ratio)) == FLOOR_ALL,
{
    let r = ratio as int;
    assert(counter as int % r == 0) by {
        if counter as int % (r * r) == 0 {
            lemma_multiple_of_square(counter as int, r);
        }
    }
    assert((counter + 1) as int % r == 1) by {
        lemma_fundamental_div_mod(counter as int, r);
        lemma_mod_multiples_vanish(counter as int / r, 1, r);
        vstd::arithmetic::div_mod::lemma_small_mod(1, r as nat);
    }
    if (counter + 1) as int % (r * r) == 0 {
        lemma_multiple_of_square((counter + 1) as int, r);
    }
}

/// Among any two consecutive claims one is unconstrained, so the rotation always
/// still serves High first.
pub proof fn every_window_admits_high(start: nat, ratio: u32) -> (at: nat)
    requires
        ratio >= 2,
    ensures
        start <= at <= start + 1,
        rotation_floor(at, Some(ratio)) == FLOOR_ALL,
{
    if rotation_floor(start, Some(ratio)) == FLOOR_ALL {
        start
    } else {
        reserved_claims_are_not_adjacent(start, ratio);
        start + 1
    }
}

/// How many of the `len` claims from `start` on have the given floor.
pub open spec fn floors_in(start: nat, len: nat, ratio: u32, floor: i16) -> nat
    decreases len,
{
    if len == 0 {
        0
    } else {
        let before = floors_in(start, (len - 1) as nat, ratio, floor);
        if rotation_floor((start + len - 1) as nat, Some(ratio)) == floor {
            before + 1
        } else {
            before
        }
    }
}

/// Among any `r²` consecutive claims exactly one is reserved for Low, exactly `r - 1`
/// for Normal and Low, and the other `r² - r` admit every tier.
pub proof fn windows_are_shared_exactly(start: nat, ratio: u32)
    requires
        ratio >= 2,
    ensures
        floors_in(start, (ratio * ratio) as nat, ratio, FLOOR_LOW) == 1,
        floors_in(start, (ratio * ratio) as nat, ratio, FLOOR_NORMAL) == ratio - 1,
        floors_in(start, (ratio * ratio) as nat, ratio, FLOOR_ALL) == ratio * ratio - ratio,
{
    let r = ratio as int;
    let square = r * r;
    assert(square > 0) by (nonlinear_arith)
        requires
            r >= 2,
            square == r * r,
    ;
    lemma_floors_in(start, square as nat, ratio);
    lemma_steps_over(start as int, 1, square);
    lemma_steps_over(start as int, r, r);
    assert(1 * square == square) by (nonlinear_arith);
}

/// Among any `r` consecutive claims exactly one is reserved, and the other `r - 1`
/// admit every tier.
pub proof fn one_claim_in_a_round_is_reserved(start: nat, ratio: u32)
    requires
        ratio >= 2,
    ensures
        floors_in(start, ratio as nat, ratio, FLOOR_LOW) + floors_in(
            start,
            ratio as nat,
            ratio,
            FLOOR_NORMAL,
        ) == 1,
        floors_in(start, ratio as nat, ratio, FLOOR_ALL) == ratio - 1,
{
    let r = ratio as int;
    lemma_floors_in(start, ratio as nat, ratio);
    lemma_steps_over(start as int, 1, r);
    assert(1 * r == r) by (nonlinear_arith);
}

/// How many multiples of `n` lie below `end`.
spec fn multiples_below(end: int, n: int) -> int {
    (end + n - 1) / n
}

/// The claims of a window fall to the floors as the multiples of `r` and `r²` do.
proof fn lemma_floors_in(start: nat, len: nat, ratio: u32)
    requires
        ratio >= 2,
    ensures
        ({
            let r = ratio as int;
            let from = start as int;
            let low = multiples_below(from + len, r * r) - multiples_below(from, r * r);
            let reserved = multiples_below(from + len, r) - multiples_below(from, r);
            &&& floors_in(start, len, ratio, FLOOR_LOW) == low
            &&& floors_in(start, len, ratio, FLOOR_NORMAL) == reserved - low
            &&& floors_in(start, len, ratio, FLOOR_ALL) == len - reserved
        }),
    decreases len,
{
    if len > 0 {
        let r = ratio as int;
        let at = start + len - 1;
        assert(r * r > 0) by (nonlinear_arith)
            requires
                r >= 2,
        ;
        lemma_floors_in(start, (len - 1) as nat, ratio);
        lemma_multiples_step(at, r);
        lemma_multiples_step(at, r * r);
        if at % (r * r) == 0 {
            lemma_multiple_of_square(at, r);
        }
    }
}

proof fn lemma_multiples_step(at: int, n: int)
    requires
        n > 0,
        at >= 0,
    ensures
        multiples_below(at + 1, n) == multiples_below(at, n) + (if at % n == 0 {
            1int
        } else {
            0
        }),
{
    let q = at / n;
    let m = at % n;
    lemma_fundamental_div_mod(at, n);
    assert((q + 1) * n == n * q + n) by (nonlinear_arith);
    assert(q * n == n * q) by (nonlinear_arith);
    lemma_fundamental_div_mod_converse(at + n, n, q + 1, m);
    if m == 0 {
        lemma_fundamental_div_mod_converse(at + n - 1, n, q, n - 1);
    } else {
        lemma_fundamental_div_mod_converse(at + n - 1, n, q + 1, m - 1);
    }
}

/// A window of `count * n` numbers holds `count` multiples of `n`.
proof fn lemma_steps_over(start: int, count: int, n: int)
    requires
        n > 0,
    ensures
        multiples_below(start + count * n, n) == multiples_below(start, n) + count,
{
    let x = start + n - 1;
    lemma_fundamental_div_mod(x, n);
    assert((x / n + count) * n == n * (x / n) + count * n) by (nonlinear_arith);
    lemma_fundamental_div_mod_converse(x + count * n, n, x / n + count, x % n);
}

proof fn lemma_multiple_of_square(n: int, r: int)
    requires
        r >= 2,
        n % (r * r) == 0,
    ensures
        n % r == 0,
{
    assert(r * r > 0) by (nonlinear_arith)
        requires
            r >= 2,
    ;
    lemma_fundamental_div_mod(n, r * r);
    let q = n / (r * r);
    assert(n == (r * q) * r) by (nonlinear_arith)
        requires
            n == (r * r) * q,
    ;
    lemma_mod_multiples_basic(r * q, r);
}

} // verus!
