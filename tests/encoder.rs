use std::cell::Cell;

use stokast::clock::Time;
use stokast::encoder::{
    accel_step, decode_step, Accel, BitmaskQuadratureSource, Decoder, Encoder, EncoderAccelerator,
};
use stokast::input::DeltaInput;

fn turn(word: &Cell<u32>, enc: &mut impl DeltaInput<1000>, seq: &[u32]) -> Vec<i8> {
    seq.iter()
        .map(|w| {
            word.set(*w);
            enc.tick(Time::new(0))
        })
        .collect()
}

#[test]
fn encoder_clockwise_detent() {
    let word = Cell::new(0u32);
    let quad = BitmaskQuadratureSource::new(|| word.get(), 0b10, 0b01);
    let mut enc = Encoder::new(quad);
    // pins (a, b): 00 -> 10 -> 11 -> 01 -> 00
    let out = turn(&word, &mut enc, &[0b10, 0b11, 0b01, 0b00, 0b10, 0b11, 0b01, 0b00, 0b10]);
    assert_eq!(out, vec![0, 0, 0, 0, 1, 0, 0, 0, 1]);
}

#[test]
fn encoder_counter_clockwise_detent() {
    let word = Cell::new(0u32);
    let quad = BitmaskQuadratureSource::new(|| word.get(), 0b10, 0b01);
    let mut enc = Encoder::new(quad);
    let out = turn(&word, &mut enc, &[0b01, 0b11, 0b10, 0b00, 0b01, 0b11, 0b10, 0b00]);
    assert_eq!(out, vec![0, 0, 0, 0, -1, 0, 0, 0]);
}

#[test]
fn decoder_ignores_repeated_reading() {
    let mut d = Decoder { prev_next: 0, state: 0, last_pos: 4 };
    assert_eq!(decode_step(&mut d, 0), 0);
    assert_eq!(d.prev_next, 0);
    assert_eq!(decode_step(&mut d, 2), 0);
    assert_eq!(d.prev_next, 0b0010);
    assert_eq!(d.state, 0b0010);
}

struct Scripted<'a> {
    next: &'a Cell<i8>,
}

impl<'a> DeltaInput<1000> for Scripted<'a> {
    fn ready(&self) -> bool {
        true
    }

    fn tick(&mut self, _now: Time<1000>) -> i8 {
        self.next.get()
    }
}

#[test]
fn accelerator_repeats_quick_turns() {
    let next = Cell::new(0i8);
    let mut acc = EncoderAccelerator::new(Scripted { next: &next });
    let mut at = |t: i64, d: i8| {
        next.set(d);
        acc.tick(Time::new(t))
    };
    assert_eq!(at(10, 1), 1);
    assert_eq!(at(11, 1), 1);
    assert_eq!(at(11, 0), 0);
    assert_eq!(at(12, 0), 1);
    assert_eq!(at(13, 0), 1);
    // a turn back within 4 ms is a bounce
    assert_eq!(at(13, -1), 0);
}

#[test]
fn accelerator_step_function() {
    let mut a = Accel::<1000> {
        prev_time: Time::new(0),
        prev_dir: 1,
        speed: 600,
        acc: 999_900,
        last_emit: Time::new(0),
    };
    // no step for a millisecond: speed falls to 100 and the accumulator rolls over
    assert_eq!(accel_step(&mut a, Time::new(1), 0), 1);
    assert_eq!(a.speed, 100);
    assert_eq!(a.acc, 0);
    assert_eq!(accel_step(&mut a, Time::new(2), 0), 0);
    assert_eq!(a.speed, 0);
    assert_eq!(a.acc, 0);
    // a slow step in the same direction: 1.2M over 502 ms
    assert_eq!(accel_step(&mut a, Time::new(502), 1), 1);
    assert_eq!(a.speed, 2390);
}
