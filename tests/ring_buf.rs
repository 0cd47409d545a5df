use stokast::ring_buf::RingBuf;

#[test]
fn ring_buf_fifo_order() {
    let mut r: RingBuf<u32, 4> = RingBuf::new();
    assert_eq!(r.len(), 0);
    assert_eq!(r.pop(), None);
    r.push(1);
    r.push(2);
    r.push(3);
    assert_eq!(r.len(), 3);
    assert_eq!(r.pop(), Some(1));
    r.push(4);
    assert_eq!(r.len(), 3);
    assert_eq!(r.pop(), Some(2));
    assert_eq!(r.pop(), Some(3));
    assert_eq!(r.pop(), Some(4));
    assert_eq!(r.pop(), None);
    assert_eq!(r.len(), 0);
}

#[test]
fn ring_buf_wraps_many_times() {
    let mut r: RingBuf<u8, 3> = RingBuf::new();
    for i in 0..50u8 {
        r.push(i);
        r.push(i.wrapping_add(100));
        assert_eq!(r.pop(), Some(i));
        assert_eq!(r.pop(), Some(i.wrapping_add(100)));
    }
}
