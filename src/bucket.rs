use vstd::prelude::*;
use vstd::arithmetic::div_mod::*;
use vstd::arithmetic::mul::*;

use crate::error::TimelineError;

verus! {

/// Bucket of a frame shown at time `t` in a stream of duration `d`, with `w`
/// buckets: `floor(w * t / d)`, clamped to the last bucket.
pub open spec fn bucket_of(t: nat, d: nat, w: nat) -> nat {
    let b = w * t / d;
    if b < w - 1 {
        b as nat
    } else {
        (w - 1) as nat
    }
}

/// Maps a presentation timestamp to its column, for a stream of `duration`
/// and `width` columns. Timestamps and duration are in the same unit.
pub fn bucket_index(pts: Option<u64>, duration: u64, width: usize) -> (r: Result<
    usize,
    TimelineError,
>)
    requires
        width >= 1,
    ensures
        match pts {
            None => r == Err::<usize, TimelineError>(TimelineError::MissingTimestamp),
            Some(t) => if duration == 0 {
                r == Err::<usize, TimelineError>(TimelineError::InvalidDuration)
            } else {
                r == Ok::<usize, TimelineError>(
                    bucket_of(t as nat, duration as nat, width as nat) as usize,
                )
            },
        },
{
    let t = match pts {
        Some(t) => t,
        None => return Err(TimelineError::MissingTimestamp),
    };
    if duration == 0 {
        return Err(TimelineError::InvalidDuration);
    }
    let w = width as u128;
    assert(w * (t as u128) <= u128::MAX) by (nonlinear_arith)
        requires w <= usize::MAX, t <= u64::MAX, usize::MAX < 0x1_0000_0000_0000_0000;
    let b = w * (t as u128) / (duration as u128);
    if b < w - 1 {
        Ok(b as usize)
    } else {
        Ok(width - 1)
    }
}

/// Every timestamp, even one at or past the end of the stream, lands in one
/// of the `w` buckets; before the end no clamping is needed.
pub proof fn lemma_bucket_in_range(t: nat, d: nat, w: nat)
    requires
        d > 0,
        w >= 1,
    ensures
        bucket_of(t, d, w) < w,
        t < d ==> bucket_of(t, d, w) == w * t / d,
{
    if t < d {
        lemma_fundamental_div_mod((w * t) as int, d as int);
        lemma_mod_pos_bound((w * t) as int, d as int);
        assert(w * t / d < w) by (nonlinear_arith)
            requires w * t == d * (w * t / d) + (w * t) % d, 0 <= (w * t) % d, t < d,
                w >= 1, d > 0;
    }
}

/// A timestamp exactly at the end of the stream maps to the last bucket.
pub proof fn lemma_bucket_at_end(d: nat, w: nat)
    requires
        d > 0,
        w >= 1,
    ensures
        bucket_of(d, d, w) == w - 1,
{
    lemma_mul_is_commutative(w as int, d as int);
    lemma_div_multiples_vanish(w as int, d as int);
}

} // verus!
