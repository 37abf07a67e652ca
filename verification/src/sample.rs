//! Samples and the arithmetic on them.
//!
//! A sample is a signed 16-bit amplitude; silence is `0`. A gain is an unsigned
//! fixed-point factor counted in units of `1 / UNIT`, so `UNIT` leaves a sample
//! as it is and `UNIT / 2` halves it.

use vstd::prelude::*;

verus! {

/// The gain that stands for the factor one.
pub const UNIT: u32 = 65536;

/// The sample that stands for silence.
pub const SILENCE: i16 = 0;

/// A supplier of samples: a lazy sequence, finite or not, at one fixed sample
/// rate.
///
/// Nothing is assumed of an implementation: whatever a call returns, the mixer
/// deals with it.
pub trait SampleSource {
    /// The number of samples per second of the sequence.
    fn sample_rate(&self) -> u32;

    /// The next sample, or `None` when the sequence has ended.
    fn next_sample(&mut self) -> Option<i16>;
}

/// `value`, held at the two ends of the sample range.
pub open spec fn clamped(value: int) -> i16 {
    if value > i16::MAX {
        i16::MAX
    } else if value < i16::MIN {
        i16::MIN
    } else {
        value as i16
    }
}

/// The sum of two samples, held at the ends of the sample range instead of
/// wrapping round.
pub open spec fn saturating_sum(a: i16, b: i16) -> i16 {
    clamped(a + b)
}

/// The magnitude of a sample.
pub open spec fn magnitude(sample: i16) -> nat {
    if sample < 0 {
        (-sample) as nat
    } else {
        sample as nat
    }
}

/// A sample scaled by a gain: the magnitude is multiplied by `gain / UNIT` and
/// rounded towards zero, the sign is kept, and the result is held at the ends
/// of the sample range.
pub open spec fn amplified(sample: i16, gain: u32) -> i16 {
    let scaled = (magnitude(sample) * gain) / (UNIT as int);
    if sample < 0 {
        clamped(-scaled)
    } else {
        clamped(scaled)
    }
}

/// Adds two samples without wrapping.
pub fn saturating_add(a: i16, b: i16) -> (sum: i16)
    ensures
        sum == saturating_sum(a, b),
{
    let wide: i32 = a as i32 + b as i32;
    if wide > i16::MAX as i32 {
        i16::MAX
    } else if wide < i16::MIN as i32 {
        i16::MIN
    } else {
        wide as i16
    }
}

/// Scales a sample by a gain.
pub fn amplify(sample: i16, gain: u32) -> (scaled: i16)
    ensures
        scaled == amplified(sample, gain),
{
    let size: u64 = if sample < 0 {
        (-(sample as i32)) as u64
    } else {
        sample as u64
    };
    assert(size * gain <= 32768 * 0xffff_ffff) by (nonlinear_arith)
        requires
            size <= 32768,
            gain <= 0xffff_ffff,
    ;
    let scaled: u64 = (size * (gain as u64)) / (UNIT as u64);
    if sample < 0 {
        if scaled >= 32768 {
            i16::MIN
        } else {
            -(scaled as i16)
        }
    } else {
        if scaled > i16::MAX as u64 {
            i16::MAX
        } else {
            scaled as i16
        }
    }
}

/// A gain of one leaves every sample as it is.
pub proof fn unit_gain_keeps_sample(sample: i16)
    ensures
        amplified(sample, UNIT) == sample,
{
    let m = magnitude(sample);
    assert((m * UNIT) / (UNIT as int) == m) by (nonlinear_arith)
        requires
            UNIT == 65536,
    ;
}

} // verus!
