use stokast::bitfield::{Bitfield, SetBit};

#[test]
fn bitfield_set_and_clear() {
    let mut b = Bitfield::default();
    b.set(0, true);
    b.set(31, true);
    b.set(5, true);
    assert!(b.is(0) && b.is(5) && b.is(31));
    assert!(!b.is(1));
    assert_eq!(b.bits(), 0x8000_0021);
    b.set(5, false);
    assert!(!b.is(5));
    assert_eq!(b.bits(), 0x8000_0001);
}

#[test]
fn set_bit_on_u16() {
    let mut v: u16 = 0;
    v.set_bit(3, true);
    v.set_bit(15, true);
    assert_eq!(v, 0x8008);
    assert!(v.is_bit(3));
    assert!(!v.is_bit(4));
    v.set_bit(3, false);
    assert_eq!(v, 0x8000);
}
