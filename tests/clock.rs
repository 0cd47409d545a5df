use std::cell::Cell;

use stokast::clock::{Clock, Time};

#[test]
fn time_from_secs() {
    let t = Time::<600_000_000>::from_secs(10);
    assert_eq!(t.to_text(), "10.000s");
    let t = Time::<600_000_000>::from_secs(6);
    assert_eq!(t.to_text(), "6.000s");
    let t = Time::<600_000_000>::from_secs(0);
    assert_eq!(t.to_text(), "0.000s");
    let t = Time::<600_000_000>::from_secs(49);
    assert_eq!(t.to_text(), "49.000s");
}

#[test]
fn time_seconds_millis_nanos() {
    let t: Time<600_000_000> = Time::new(500_000_000);
    assert_eq!(t.seconds(), 0);
    assert_eq!(t.subsec_millis(), 833);
    assert_eq!(t.subsec_nanos(), 833_333_333);

    let t: Time<600_000_000> = Time::new(700_000_000);
    assert_eq!(t.seconds(), 1);
    assert_eq!(t.subsec_millis(), 166);
    assert_eq!(t.subsec_nanos(), 166666666);
}

#[test]
fn time_add() {
    let t1: Time<600_000_000> = Time::new(u32::MAX as i64);
    let t2: Time<600_000_000> = Time::new(1);

    let t3 = t1 + t2;

    assert_eq!(t3.count, 0x1_0000_0000);

    let mut t4 = Time::new(1);
    t4 = t4 + Time::<600_000_000>::new(1);

    assert_eq!(t4.count, 2);
}

#[test]
fn time_sub() {
    let t1: Time<600_000_000> = Time::new(0);
    let t2: Time<600_000_000> = Time::new(1);

    let t3 = t1 - t2;

    assert_eq!(t3.count, -1);

    let mut t4 = Time::new(1);
    t4 = t4 - Time::<600_000_000>::new(1);

    assert_eq!(t4.count, 0);
}

#[test]
fn time_conversions() {
    assert_eq!(Time::<1000>::from_millis(1500).count(), 1500);
    assert_eq!(Time::<600_000_000>::from_millis(1).count(), 600_000);
    assert_eq!(Time::<600_000_000>::from_micros(1).count(), 600);
    assert_eq!(Time::<600_000_000>::from_nanos(5).count(), 3);
    assert_eq!(Time::<600_000_000>::from_nanos(-5).count(), -3);
    assert_eq!(Time::<1000>::new(-1500).seconds(), -1);
}

#[test]
fn time_subsec_micros_uses_common_divisor() {
    let t: Time<600_000_000> = Time::new(500_000_000);
    assert_eq!(t.subsec_micros(), 833_333);
    let t: Time<44_100> = Time::new(44_100 + 1);
    assert_eq!(t.subsec_micros(), 22);
    assert_eq!(t.subsec_nanos(), 22_675);
    let t: Time<1000> = Time::new(-1500);
    assert_eq!(t.subsec_micros(), -500_000);
}

#[test]
fn clock_counts_wraps() {
    let counter = Cell::new(0xF000_0000u32);
    let mut clock: Clock<_, 1000> = Clock::new(|| counter.get());
    assert_eq!(clock.now().count(), 0xF000_0000);

    counter.set(0x0000_0010);
    clock.tick();
    assert_eq!(clock.now().count(), 0x1_0000_0010);

    counter.set(0x9000_0000);
    clock.tick();
    assert_eq!(clock.now().count(), 0x1_9000_0000);

    // a value in the lower half read while in the upper half lies after the wrap
    assert_eq!(clock.time_relative(5).count(), 0x2_0000_0005);
    assert_eq!(clock.time_relative(0x9000_0001).count(), 0x1_9000_0001);
}

#[test]
fn clock_delay_elapsed() {
    let counter = Cell::new(100u32);
    let mut clock: Clock<_, 1000> = Clock::new(|| counter.get());
    let start = clock.now();
    let until = Time::<1000>::new(50);
    assert!(!clock.delay_elapsed(start, until));
    counter.set(149);
    clock.tick();
    assert!(!clock.delay_elapsed(start, until));
    counter.set(150);
    clock.tick();
    assert!(clock.delay_elapsed(start, until));
}
