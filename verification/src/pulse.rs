//! Arithmetic on the pulse phase, a fixed-point number in `[0, 1)` that
//! wraps.

use vstd::prelude::*;
use vstd::arithmetic::div_mod::{
    lemma_fundamental_div_mod,
    lemma_mod_multiples_vanish,
    lemma_small_mod,
};
use crate::units::{gap, min_of, UNIT};

verus! {

/// The phase `delta` after `phase`.
pub open spec fn advanced(phase: int, delta: int) -> int {
    (phase + delta) % (UNIT as int)
}

/// The signed shortest way round from `from` to `to`, in `(-1/2, 1/2]`.
pub open spec fn arc(from: int, to: int) -> int {
    let d = to - from;
    if d > UNIT / 2 {
        d - UNIT
    } else if d <= -(UNIT / 2) {
        d + UNIT
    } else {
        d
    }
}

/// The part `weight` of the way `way`, rounded toward zero.
pub open spec fn part_of(way: int, weight: int) -> int {
    if way >= 0 {
        way * weight / (UNIT as int)
    } else {
        -((-way) * weight / (UNIT as int))
    }
}

/// The phase that `phase` takes when it is drawn toward `neighbor` by
/// `weight`.
pub open spec fn aligned(phase: int, neighbor: int, weight: int) -> int {
    (phase + part_of(arc(phase, neighbor % (UNIT as int)), weight)) % (UNIT as int)
}

/// The distance between two phases on the circle.
pub open spec fn circular_distance(a: int, b: int) -> int {
    min_of(gap(a, b), UNIT - gap(a, b))
}

/// Computes [`advanced`].
pub fn advance(phase: u64, delta: u64) -> (next: u64)
    ensures
        next == advanced(phase as int, delta as int),
        next < UNIT,
{
    (((phase as u128) + (delta as u128)) % (UNIT as u128)) as u64
}

/// Computes [`aligned`].
pub fn align(phase: u64, neighbor: u64, weight: u64) -> (next: u64)
    requires
        phase < UNIT,
    ensures
        next == aligned(phase as int, neighbor as int, weight as int),
        next < UNIT,
{
    let target: u64 = neighbor % UNIT;
    let forward: bool;
    let span: u64;
    if target >= phase {
        let d: u64 = target - phase;
        if d > UNIT / 2 {
            forward = false;
            span = UNIT - d;
        } else {
            forward = true;
            span = d;
        }
    } else {
        let d: u64 = phase - target;
        if d >= UNIT / 2 {
            forward = true;
            span = UNIT - d;
        } else {
            forward = false;
            span = d;
        }
    }
    assert(span * weight <= 500_000 * 0xffff_ffff_ffff_ffff) by (nonlinear_arith)
        requires
            span <= 500_000,
            weight <= 0xffff_ffff_ffff_ffff,
    ;
    let step: u128 = (span as u128) * (weight as u128) / (UNIT as u128);
    let turn: u64 = (step % (UNIT as u128)) as u64;
    proof {
        let way = arc(phase as int, target as int);
        assert(way == if forward {
            span as int
        } else {
            -(span as int)
        });
        assert(part_of(way, weight as int) == if forward {
            step as int
        } else {
            -(step as int)
        });
        let m = UNIT as int;
        let q = (step as int) / m;
        lemma_fundamental_div_mod(step as int, m);
        assert(step as int == m * q + turn);
        if forward {
            lemma_mod_multiples_vanish(q, phase + turn, m);
            assert(phase + step == m * q + (phase + turn));
        } else {
            lemma_mod_multiples_vanish(-q - 1, phase + m - turn, m);
            assert(phase - step == m * (-q - 1) + (phase + m - turn)) by (nonlinear_arith)
                requires
                    step as int == m * q + turn,
            ;
        }
    }
    if forward {
        (phase + turn) % UNIT
    } else {
        (phase + UNIT - turn) % UNIT
    }
}

/// Drawing a phase toward another by a weight of at most one never parts
/// them: their distance on the circle does not grow.
pub proof fn lemma_alignment_never_parts(phase: int, neighbor: int, weight: int)
    requires
        0 <= phase < UNIT,
        0 <= neighbor < UNIT,
        0 <= weight <= UNIT,
    ensures
        circular_distance(aligned(phase, neighbor, weight), neighbor) <= circular_distance(
            phase,
            neighbor,
        ),
{
    let m = UNIT as int;
    lemma_small_mod(neighbor as nat, m as nat);
    let way = arc(phase, neighbor);
    let step = part_of(way, weight);
    let span = if way >= 0 {
        way
    } else {
        -way
    };
    assert(circular_distance(phase, neighbor) == span);
    let size = span * weight / m;
    assert(0 <= size <= span) by (nonlinear_arith)
        requires
            0 <= span,
            0 <= weight <= m,
            m == 1_000_000,
            size == span * weight / m,
    ;
    let raw = phase + step;
    let next = raw % m;
    lemma_fundamental_div_mod(raw, m);
    assert(-m < raw < 2 * m);
    let q = raw / m;
    assert(raw == m * q + next);
    assert(0 <= next < m);
    assert(q == -1 || q == 0 || q == 1) by (nonlinear_arith)
        requires
            raw == m * q + next,
            0 <= next < m,
            -m < raw < 2 * m,
            m == 1_000_000,
    ;
}

} // verus!
