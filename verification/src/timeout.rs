//! Clamping of an adaptive timeout to its configured bounds.

use vstd::prelude::*;

verus! {

/// The timeout, in milliseconds, that an estimate of `value_ms` gives once it
/// is raised to the floor `min_ms`, lowered to the ceiling `max_ms`, and held
/// to what a `u64` can count.
pub open spec fn clamped_ms(value_ms: int, min_ms: int, max_ms: int) -> int {
    let raised = if value_ms < min_ms { min_ms } else { value_ms };
    let lowered = if raised > max_ms { max_ms } else { raised };
    if lowered > u64::MAX { u64::MAX as int } else { lowered }
}

/// Clamps a latency estimate (in whole milliseconds) to the bounds of a
/// timeout configuration: first raised to `min_ms`, then lowered to `max_ms`.
/// Where the ceiling lies below the floor, the ceiling wins. A result beyond
/// `u64::MAX` saturates.
pub fn clamp_timeout_ms(value_ms: u64, min_ms: u128, max_ms: u128) -> (res: u64)
    ensures
        res == clamped_ms(value_ms as int, min_ms as int, max_ms as int),
        min_ms <= max_ms && max_ms <= u64::MAX ==> min_ms <= res && res <= max_ms,
        min_ms <= value_ms && value_ms <= max_ms ==> res == value_ms,
        min_ms <= max_ms && max_ms <= u64::MAX && value_ms < min_ms ==> res == min_ms,
        max_ms <= u64::MAX && value_ms > max_ms ==> res == max_ms,
        max_ms < min_ms ==> res == if max_ms > u64::MAX { u64::MAX as int } else { max_ms as int },
        res <= value_ms || res <= min_ms,
        res >= value_ms || res >= max_ms || res == u64::MAX,
{
    let v = value_ms as u128;
    let raised: u128 = if v < min_ms { min_ms } else { v };
    let lowered: u128 = if raised > max_ms { max_ms } else { raised };
    if lowered > u64::MAX as u128 {
        u64::MAX
    } else {
        lowered as u64
    }
}

/// Clamping within well-ordered bounds: an estimate below the floor gives the
/// floor, one above the ceiling gives the ceiling, one between them is kept,
/// and the timeout always lies between the floor and the ceiling.
pub proof fn lemma_clamp_within_bounds(value_ms: int, min_ms: int, max_ms: int)
    requires
        0 <= min_ms <= max_ms <= u64::MAX,
    ensures
        value_ms < min_ms ==> clamped_ms(value_ms, min_ms, max_ms) == min_ms,
        value_ms > max_ms ==> clamped_ms(value_ms, min_ms, max_ms) == max_ms,
        min_ms <= value_ms <= max_ms ==> clamped_ms(value_ms, min_ms, max_ms) == value_ms,
        min_ms <= clamped_ms(value_ms, min_ms, max_ms) <= max_ms,
{
}

/// Where the ceiling lies below the floor, the ceiling wins, whatever the
/// estimate.
pub proof fn lemma_clamp_ceiling_wins(value_ms: int, min_ms: int, max_ms: int)
    requires
        0 <= max_ms < min_ms,
        max_ms <= u64::MAX,
    ensures
        clamped_ms(value_ms, min_ms, max_ms) == max_ms,
{
}

/// Clamping keeps the order of estimates: a larger estimate never gives a
/// smaller timeout.
pub proof fn lemma_clamp_monotone(v1: int, v2: int, min_ms: int, max_ms: int)
    requires
        v1 <= v2,
    ensures
        clamped_ms(v1, min_ms, max_ms) <= clamped_ms(v2, min_ms, max_ms),
{
}

/// Clamping a clamped timeout again changes nothing.
pub proof fn lemma_clamp_idempotent(value_ms: int, min_ms: int, max_ms: int)
    requires
        0 <= min_ms <= max_ms <= u64::MAX,
    ensures
        clamped_ms(clamped_ms(value_ms, min_ms, max_ms), min_ms, max_ms) == clamped_ms(
            value_ms,
            min_ms,
            max_ms,
        ),
{
}

} // verus!
