use std::time::Duration;

use folding_physics::clock::RotationClock;
use folding_physics::rng::SimpleRng;

#[test]
fn rotation_clock_advances_ticks() {
    let mut clock = RotationClock::new(2);
    assert_eq!(clock.tick_duration(), Duration::from_millis(2));
    assert_eq!(clock.tick(), Duration::from_millis(2));
}

#[test]
fn rotation_clock_zero_step_is_one_millisecond() {
    let clock = RotationClock::new(0);
    assert_eq!(clock.tick_duration(), Duration::from_millis(1));
}

#[test]
fn seeded_generator_follows_the_recurrence() {
    let mut rng = SimpleRng::seed_from_u64(1);
    let expected = 1u64
        .wrapping_mul(6364136223846793005)
        .wrapping_add(1442695040888963407);
    assert_eq!(rng.next_u64(), expected);
    let second = expected
        .wrapping_mul(6364136223846793005)
        .wrapping_add(1442695040888963407);
    assert_eq!(rng.next_u64(), second);
}

#[test]
fn zero_seed_uses_replacement_state() {
    let mut a = SimpleRng::seed_from_u64(0);
    let mut b = SimpleRng::seed_from_u64(0xdead_beef_dead_beef);
    assert_eq!(a.next_u64(), b.next_u64());
}

#[test]
fn top_bits_stay_below_two_to_the_53() {
    let mut rng = SimpleRng::seed_from_u64(42);
    for _ in 0..100 {
        assert!(rng.next_bits53() < (1u64 << 53));
    }
    let mut a = SimpleRng::seed_from_u64(7);
    let mut b = SimpleRng::seed_from_u64(7);
    assert_eq!(a.next_bits53(), b.next_u64() >> 11);
}

#[test]
fn entropy_seeded_generator_runs() {
    let mut rng = SimpleRng::from_entropy();
    let _ = rng.next_u64();
}
