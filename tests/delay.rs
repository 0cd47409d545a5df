use stokast::delay::{DelayBank, MemoryDelay};

#[test]
fn delay_round_trip_reproduces_input_delayed() {
    let mut d: MemoryDelay<f32, 8> = MemoryDelay::new(0.0);
    d.set_sample_count(3);
    let input = [1.0f32, 2.0, 3.0, 4.0, 5.0, 6.0, 7.0];
    let mut out = Vec::new();
    for x in input {
        out.push(d.read());
        d.write(x);
    }
    assert_eq!(out, vec![0.0, 0.0, 0.0, 1.0, 2.0, 3.0, 4.0]);
}

#[test]
fn delay_write_then_read_gives_oldest() {
    let mut d: MemoryDelay<i32, 4> = MemoryDelay::new(-1);
    d.set_sample_count(2);
    d.write(10);
    assert_eq!(d.read(), -1);
    d.write(20);
    assert_eq!(d.read(), 10);
    d.write(30);
    assert_eq!(d.read(), 20);
}

#[test]
fn delay_full_length_by_default() {
    let mut d: MemoryDelay<u8, 3> = MemoryDelay::new(0);
    for v in 1..=3u8 {
        d.write(v);
    }
    assert_eq!(d.read(), 1);
}

#[test]
fn delay_of_one_sample() {
    let mut d: MemoryDelay<u8, 3> = MemoryDelay::new(0);
    d.set_sample_count(1);
    d.write(9);
    assert_eq!(d.read(), 9);
    d.write(4);
    assert_eq!(d.read(), 4);
}

#[test]
fn delay_bank_channels_keep_own_lengths() {
    let mut bank: DelayBank<i32, 4, 3> = DelayBank::new(0, [1, 2, 3]);
    let mut outs = Vec::new();
    for t in 1..=4 {
        outs.push(bank.write_then_read([t, 10 * t, 100 * t]));
    }
    assert_eq!(outs[0], [1, 0, 0]);
    assert_eq!(outs[1], [2, 10, 0]);
    assert_eq!(outs[2], [3, 20, 100]);
    assert_eq!(outs[3], [4, 30, 200]);
    assert_eq!(bank.read_all(), [4, 30, 200]);
}

#[test]
fn delay_bank_read_before_write() {
    let mut bank: DelayBank<u8, 2, 2> = DelayBank::new(7, [2, 1]);
    assert_eq!(bank.read_all(), [7, 7]);
    bank.write_all([1, 2]);
    assert_eq!(bank.read_all(), [7, 2]);
    bank.write_all([3, 4]);
    assert_eq!(bank.read_all(), [1, 4]);
}
