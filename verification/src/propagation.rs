//! How distance weakens and delays a sound.
//!
//! With `d` the distance between a source and a listener, the sound reaches the
//! listener amplified by `amplify / (d * attenuation_rate)`, and, where the
//! source asks for it, late by its time of flight `d / sound_velocity`, counted
//! in samples. Both are taken in fixed-point arithmetic (see `UNIT`), and both
//! are defined at every distance:
//!
//! - the product `d * attenuation_rate` is never taken below one, so a listener
//!   at the source, or nearer than `1 / attenuation_rate`, hears the source at
//!   `amplify` and never louder;
//! - the delay is never longer than `MAX_DELAY` samples, and at distance zero
//!   it is zero whatever the velocity.

use vstd::prelude::*;
use vstd::arithmetic::div_mod::{lemma_div_is_ordered_by_denominator, lemma_div_multiples_vanish};
use crate::sample::UNIT;

verus! {

/// The longest delay, in samples, that a contribution can have.
pub const MAX_DELAY: usize = 1048576;

/// The gain with which a source is heard at `distance`.
///
/// `amplify` is a gain and `attenuation_rate` a fixed-point factor per grid
/// step, both in units of `1 / UNIT`. The result is
/// `amplify / max(1, distance * attenuation_rate)`, rounded down.
pub open spec fn attenuation_factor(amplify: u32, attenuation_rate: u32, distance: nat) -> u32 {
    let reach = distance * attenuation_rate;
    if reach <= UNIT {
        amplify
    } else {
        ((amplify * UNIT) / reach) as u32
    }
}

/// The number of samples that pass while sound travels `distance`.
///
/// `sound_velocity` counts grid steps per second and `sample_rate` samples per
/// second. The result is `distance / sound_velocity * sample_rate`, rounded
/// down and held at `MAX_DELAY`; sound that does not move (`sound_velocity` of
/// zero) takes `MAX_DELAY` to cover any distance but zero.
pub open spec fn delay_in_samples(distance: nat, sound_velocity: u32, sample_rate: u32) -> usize {
    if distance == 0 {
        0
    } else if sound_velocity == 0 {
        MAX_DELAY
    } else {
        let flight = (distance * sample_rate) / (sound_velocity as int);
        if flight > MAX_DELAY {
            MAX_DELAY
        } else {
            flight as usize
        }
    }
}

/// A gain shared out over a reach of at least one is at most the gain.
proof fn quotient_within_gain(amplify: u32, reach: int)
    requires
        reach >= UNIT,
    ensures
        0 <= (amplify * UNIT) / reach <= amplify,
{
    lemma_div_is_ordered_by_denominator(amplify * UNIT, UNIT as int, reach);
    lemma_div_multiples_vanish(amplify as int, UNIT as int);
    assert((amplify * UNIT) / reach >= 0) by (nonlinear_arith)
        requires
            amplify * UNIT >= 0,
            reach > 0,
    ;
}

/// No listener hears a source louder than its `amplify`.
pub proof fn attenuation_within_amplify(amplify: u32, attenuation_rate: u32, distance: nat)
    ensures
        attenuation_factor(amplify, attenuation_rate, distance) <= amplify,
{
    let reach = distance * attenuation_rate;
    if reach > UNIT {
        quotient_within_gain(amplify, reach);
    }
}

/// A listener at the source hears it at `amplify`, without delay.
pub proof fn zero_distance_is_full_amplify(
    amplify: u32,
    attenuation_rate: u32,
    sound_velocity: u32,
    sample_rate: u32,
)
    ensures
        attenuation_factor(amplify, attenuation_rate, 0) == amplify,
        delay_in_samples(0, sound_velocity, sample_rate) == 0,
{
}

/// Of two listeners, the one farther from a source never hears it louder.
pub proof fn attenuation_monotonic(amplify: u32, attenuation_rate: u32, near: nat, far: nat)
    requires
        near < far,
    ensures
        attenuation_factor(amplify, attenuation_rate, near) >= attenuation_factor(
            amplify,
            attenuation_rate,
            far,
        ),
{
    let near_reach = near * attenuation_rate;
    let far_reach = far * attenuation_rate;
    assert(near_reach <= far_reach) by (nonlinear_arith)
        requires
            near < far,
            attenuation_rate >= 0,
            near_reach == near * attenuation_rate,
            far_reach == far * attenuation_rate,
    ;
    if far_reach > UNIT {
        quotient_within_gain(amplify, far_reach);
        if near_reach > UNIT {
            quotient_within_gain(amplify, near_reach);
            lemma_div_is_ordered_by_denominator(amplify * UNIT, near_reach, far_reach);
        }
    }
}

/// Of two listeners, the one farther from a source never hears it earlier.
pub proof fn delay_monotonic(sound_velocity: u32, sample_rate: u32, near: nat, far: nat)
    requires
        near < far,
    ensures
        delay_in_samples(near, sound_velocity, sample_rate) <= delay_in_samples(
            far,
            sound_velocity,
            sample_rate,
        ) <= MAX_DELAY,
{
    if sound_velocity > 0 {
        let v = sound_velocity as int;
        assert(near * sample_rate <= far * sample_rate) by (nonlinear_arith)
            requires
                near < far,
                sample_rate >= 0,
        ;
        assert((near * sample_rate) / v <= (far * sample_rate) / v) by (nonlinear_arith)
            requires
                near * sample_rate <= far * sample_rate,
                v > 0,
        ;
        assert((near * sample_rate) / v >= 0) by (nonlinear_arith)
            requires
                near * sample_rate >= 0,
                v > 0,
        ;
    }
}

/// Computes the gain with which a source is heard at `distance`.
pub fn compute_attenuation(amplify: u32, attenuation_rate: u32, distance: u64) -> (gain: u32)
    ensures
        gain == attenuation_factor(amplify, attenuation_rate, distance as nat),
        gain <= amplify,
{
    assert(distance * attenuation_rate <= 0xffff_ffff_ffff_ffff * 0xffff_ffff) by (nonlinear_arith)
        requires
            distance <= 0xffff_ffff_ffff_ffff,
            attenuation_rate <= 0xffff_ffff,
    ;
    let reach: u128 = (distance as u128) * (attenuation_rate as u128);
    if reach <= UNIT as u128 {
        amplify
    } else {
        assert(amplify * UNIT <= 0xffff_ffff * 65536) by (nonlinear_arith)
            requires
                amplify <= 0xffff_ffff,
                UNIT == 65536,
        ;
        proof {
            quotient_within_gain(amplify, reach as int);
        }
        let shared: u128 = ((amplify as u128) * (UNIT as u128)) / reach;
        shared as u32
    }
}

/// Computes the number of samples that pass while sound travels `distance`.
pub fn compute_delay(distance: u64, sound_velocity: u32, sample_rate: u32) -> (delay: usize)
    ensures
        delay == delay_in_samples(distance as nat, sound_velocity, sample_rate),
        delay <= MAX_DELAY,
{
    if distance == 0 {
        0
    } else if sound_velocity == 0 {
        MAX_DELAY
    } else {
        assert(distance * sample_rate <= 0xffff_ffff_ffff_ffff * 0xffff_ffff) by (nonlinear_arith)
            requires
                distance <= 0xffff_ffff_ffff_ffff,
                sample_rate <= 0xffff_ffff,
        ;
        let flight: u128 = ((distance as u128) * (sample_rate as u128)) / (sound_velocity as u128);
        if flight > MAX_DELAY as u128 {
            MAX_DELAY
        } else {
            flight as usize
        }
    }
}

} // verus!
