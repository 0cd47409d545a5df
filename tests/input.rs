use std::cell::Cell;

use stokast::clock::Time;
use stokast::input::{
    debounce_step, edge_between, masked_level, BitmaskDigitalInput, DebounceDigitalInput,
    DigitalEdgeInput, DigitalInput, Edge, EdgeInput, HiLo,
};

struct Scripted<'a> {
    level: &'a Cell<bool>,
}

impl<'a> DigitalInput<1000> for Scripted<'a> {
    fn ready(&self) -> bool {
        true
    }

    fn tick(&mut self, now: Time<1000>) -> HiLo<1000> {
        if self.level.get() {
            HiLo::Hi(now)
        } else {
            HiLo::Lo(now)
        }
    }
}

#[test]
fn hilo_accessors() {
    let h: HiLo<1000> = HiLo::Hi(Time::new(5));
    let l: HiLo<1000> = HiLo::Lo(Time::new(7));
    assert!(h.is_set());
    assert!(!l.is_set());
    assert_eq!(h.time().count(), 5);
    assert_eq!(l.since().count(), 7);
    assert!(!h.is_same_state(&l));
    assert!(h.is_same_state(&HiLo::Hi(Time::new(9))));
    assert!(h == HiLo::Hi(Time::new(1)));
    assert!(h != l);
}

#[test]
fn edges_between_levels() {
    let lo: HiLo<1000> = HiLo::Lo(Time::new(1));
    let hi: HiLo<1000> = HiLo::Hi(Time::new(2));
    assert_eq!(edge_between(lo, hi), Some(Edge::Rising(Time::new(2))));
    assert_eq!(edge_between(hi, lo), Some(Edge::Falling(Time::new(1))));
    assert_eq!(edge_between(lo, lo), None);
}

#[test]
fn debounce_holds_short_changes() {
    let held: HiLo<1000> = HiLo::Lo(Time::new(10));
    // one millisecond is one cycle at 1 kHz: a change must come over 1 after
    assert!(!debounce_step(held, HiLo::Hi(Time::new(11)), Time::new(11)).is_set());
    assert!(debounce_step(held, HiLo::Hi(Time::new(12)), Time::new(12)).is_set());
    assert_eq!(debounce_step(held, HiLo::Lo(Time::new(50)), Time::new(50)).time().count(), 10);
}

#[test]
fn edge_input_reports_changes_once() {
    let level = Cell::new(false);
    let mut e = DigitalEdgeInput::new(Scripted { level: &level });
    assert_eq!(e.tick(Time::new(1)), None);
    level.set(true);
    assert_eq!(e.tick(Time::new(2)), Some(Edge::Rising(Time::new(2))));
    assert_eq!(e.tick(Time::new(3)), None);
    level.set(false);
    assert_eq!(e.tick(Time::new(4)), Some(Edge::Falling(Time::new(4))));
}

#[test]
fn debounced_input_ignores_bounce() {
    let level = Cell::new(false);
    let mut d = DebounceDigitalInput::new(Scripted { level: &level });
    level.set(true);
    assert!(d.tick(Time::new(5)).is_set());
    level.set(false);
    assert!(d.tick(Time::new(6)).is_set());
    assert!(!d.tick(Time::new(7)).is_set());
}

#[test]
fn bitmask_input_levels() {
    let word = Cell::new(0b0100u32);
    let mut b = BitmaskDigitalInput::new(|| word.get(), 0b0100);
    assert!(DigitalInput::<1000>::tick(&mut b, Time::new(3)).is_set());
    word.set(0b1011);
    assert!(!DigitalInput::<1000>::tick(&mut b, Time::new(4)).is_set());
    assert!(masked_level::<1000>(0x8000_0000, 0x8000_0000, Time::new(0)).is_set());
    assert!(!masked_level::<1000>(1, 2, Time::new(0)).is_set());
}
