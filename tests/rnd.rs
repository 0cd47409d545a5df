use stokast::rnd::Rnd;

#[test]
fn test_seq() {
    let mut r = Rnd::new(12);
    assert_eq!(r.next(), 1237598750);
    assert_eq!(r.next(), 324989476);
    assert_eq!(r.next(), 2491772807);
}

#[test]
fn rnd_same_seed_same_sequence() {
    let mut a = Rnd::new(82734);
    let mut b = Rnd::new(82734);
    for _ in 0..100 {
        assert_eq!(a.next(), b.next());
    }
}

#[test]
fn rnd_state_moves_by_fixed_step() {
    let mut r = Rnd::new(0);
    r.next();
    assert_eq!(r.0, 0x6D2B79F5);
    let mut w = Rnd::new(u32::MAX);
    w.next();
    assert_eq!(w.0, 0x6D2B79F4);
}
