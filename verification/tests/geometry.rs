use bevy_audio::geometry::{euclidian_distance, integer_sqrt, Position};
use bevy_audio::propagation::{compute_attenuation, compute_delay, MAX_DELAY};
use bevy_audio::sample::UNIT;

fn at(x: i32, y: i32, z: i32) -> Position {
    Position { x, y, z }
}

#[test]
fn integer_sqrt_of_squares() {
    assert_eq!(integer_sqrt(0), 0);
    assert_eq!(integer_sqrt(1), 1);
    assert_eq!(integer_sqrt(4), 2);
    assert_eq!(integer_sqrt(144), 12);
    assert_eq!(integer_sqrt(1u128 << 64), 1u64 << 32);
}

#[test]
fn integer_sqrt_rounds_down() {
    assert_eq!(integer_sqrt(2), 1);
    assert_eq!(integer_sqrt(3), 1);
    assert_eq!(integer_sqrt(8), 2);
    assert_eq!(integer_sqrt(15), 3);
    assert_eq!(integer_sqrt(17), 4);
    assert_eq!(integer_sqrt(99), 9);
    assert_eq!(integer_sqrt((1u128 << 64) - 1), (1u64 << 32) - 1);
}

#[test]
fn integer_sqrt_of_the_largest_number() {
    assert_eq!(integer_sqrt(u128::MAX), u64::MAX);
    let top = u64::MAX as u128;
    assert_eq!(integer_sqrt(top * top), u64::MAX);
    assert_eq!(integer_sqrt(top * top - 1), u64::MAX - 1);
}

#[test]
fn distance_of_a_right_triangle() {
    assert_eq!(euclidian_distance(&at(0, 0, 0), &at(3, 4, 0)), 5);
    assert_eq!(euclidian_distance(&at(1, 2, 3), &at(1, 5, 7)), 5);
    assert_eq!(euclidian_distance(&at(0, 0, 0), &at(2, 3, 6)), 7);
}

#[test]
fn distance_rounds_down() {
    assert_eq!(euclidian_distance(&at(0, 0, 0), &at(1, 1, 1)), 1);
    assert_eq!(euclidian_distance(&at(0, 0, 0), &at(1, 1, 0)), 1);
    assert_eq!(euclidian_distance(&at(0, 0, 0), &at(2, 2, 2)), 3);
}

#[test]
fn distance_to_itself_is_zero() {
    assert_eq!(euclidian_distance(&at(7, -8, 9), &at(7, -8, 9)), 0);
    assert_eq!(euclidian_distance(&at(i32::MIN, i32::MAX, 0), &at(i32::MIN, i32::MAX, 0)), 0);
}

#[test]
fn distance_is_symmetric() {
    let a = at(-5, 12, 100);
    let b = at(40, -3, 7);
    assert_eq!(euclidian_distance(&a, &b), euclidian_distance(&b, &a));
}

#[test]
fn distance_across_the_whole_grid() {
    let low = at(i32::MIN, i32::MIN, i32::MIN);
    let high = at(i32::MAX, i32::MAX, i32::MAX);
    // sqrt(3) * (2^32 - 1), rounded down
    assert_eq!(euclidian_distance(&low, &high), 7_439_101_571);
    assert_eq!(euclidian_distance(&at(i32::MIN, 0, 0), &at(i32::MAX, 0, 0)), 4_294_967_295);
}

#[test]
fn attenuation_at_the_source_is_amplify() {
    assert_eq!(compute_attenuation(UNIT, UNIT, 0), UNIT);
    assert_eq!(compute_attenuation(12345, 1, 0), 12345);
    assert_eq!(compute_attenuation(u32::MAX, u32::MAX, 0), u32::MAX);
    assert_eq!(compute_attenuation(0, UNIT, 0), 0);
}

#[test]
fn attenuation_divides_amplify_by_distance_times_rate() {
    assert_eq!(compute_attenuation(UNIT, UNIT, 1), UNIT);
    assert_eq!(compute_attenuation(UNIT, UNIT, 2), UNIT / 2);
    assert_eq!(compute_attenuation(UNIT, UNIT, 3), 21845);
    assert_eq!(compute_attenuation(UNIT, UNIT, 4), UNIT / 4);
    assert_eq!(compute_attenuation(2 * UNIT, UNIT, 4), UNIT / 2);
    assert_eq!(compute_attenuation(UNIT, UNIT / 2, 4), UNIT / 2);
    assert_eq!(compute_attenuation(UNIT, 2 * UNIT, 4), UNIT / 8);
}

#[test]
fn attenuation_never_exceeds_amplify() {
    assert_eq!(compute_attenuation(UNIT, UNIT / 4, 1), UNIT);
    assert_eq!(compute_attenuation(UNIT, UNIT / 4, 3), UNIT);
    assert_eq!(compute_attenuation(UNIT, UNIT / 4, 4), UNIT);
    assert_eq!(compute_attenuation(UNIT, UNIT / 4, 8), UNIT / 2);
    assert_eq!(compute_attenuation(500, 1, 65536), 500);
    assert_eq!(compute_attenuation(500, 1, 65537), 499);
}

#[test]
fn attenuation_does_not_rise_with_distance() {
    let sources = [(UNIT, UNIT), (3 * UNIT, UNIT / 7), (u32::MAX, 1), (1, u32::MAX), (77, 99)];
    let distances = [1u64, 2, 3, 5, 8, 100, 1000, 65_535, 65_536, 1 << 20, 1 << 33, u64::MAX];
    for (amplify, rate) in sources {
        let mut last = compute_attenuation(amplify, rate, 0);
        for distance in distances {
            let here = compute_attenuation(amplify, rate, distance);
            assert!(here <= last, "{} > {} at distance {}", here, last, distance);
            last = here;
        }
    }
}

#[test]
fn attenuation_at_the_far_end() {
    assert_eq!(compute_attenuation(u32::MAX, u32::MAX, u64::MAX), 0);
    assert_eq!(compute_attenuation(UNIT, UNIT, u64::MAX), 0);
    assert_eq!(compute_attenuation(u32::MAX, 1, u64::MAX), 0);
}

#[test]
fn delay_is_the_time_of_flight_in_samples() {
    assert_eq!(compute_delay(343, 343, 44_100), 44_100);
    assert_eq!(compute_delay(686, 343, 44_100), 88_200);
    assert_eq!(compute_delay(1, 343, 44_100), 128);
    assert_eq!(compute_delay(10, 1000, 48_000), 480);
    assert_eq!(compute_delay(1, 48_001, 48_000), 0);
}

#[test]
fn delay_at_the_source_is_zero() {
    assert_eq!(compute_delay(0, 343, 44_100), 0);
    assert_eq!(compute_delay(0, 0, 44_100), 0);
    assert_eq!(compute_delay(0, u32::MAX, u32::MAX), 0);
}

#[test]
fn delay_is_held_at_the_longest_delay() {
    assert_eq!(MAX_DELAY, 1_048_576);
    assert_eq!(compute_delay(u64::MAX, 1, u32::MAX), MAX_DELAY);
    assert_eq!(compute_delay(1_000_000, 1, 44_100), MAX_DELAY);
    assert_eq!(compute_delay(1_048_576, 1, 1), MAX_DELAY);
    assert_eq!(compute_delay(1_048_577, 1, 1), MAX_DELAY);
    assert_eq!(compute_delay(1_048_575, 1, 1), 1_048_575);
}

#[test]
fn delay_of_sound_that_does_not_move() {
    assert_eq!(compute_delay(1, 0, 44_100), MAX_DELAY);
    assert_eq!(compute_delay(u64::MAX, 0, 0), MAX_DELAY);
}

#[test]
fn delay_falls_as_sound_gets_faster() {
    let slow = compute_delay(1000, 100, 44_100);
    let fast = compute_delay(1000, 1000, 44_100);
    assert_eq!(slow, 441_000);
    assert_eq!(fast, 44_100);
}
