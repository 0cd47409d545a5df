use vstd::prelude::*;

verus! {

/// Whether bit `bit` of `v` is set.
pub open spec fn bit32(v: u32, bit: u32) -> bool {
    (v >> bit) & 1u32 == 1u32
}

/// Whether bit `bit` of `v` is set.
pub open spec fn bit16(v: u16, bit: u16) -> bool {
    (v >> bit) & 1u16 == 1u16
}

/// Thirty-two flags in one word.
#[derive(Default, Debug, Clone, Copy, PartialEq, Eq)]
pub struct Bitfield(pub u32);

impl Bitfield {
    /// Sets flag `bit` to `on`, leaving the others as they are.
    pub fn set(&mut self, bit: u8, on: bool)
        requires
            bit < 32,
        ensures
            bit32(final(self).0, bit as u32) == on,
            forall|b: u32| b < 32 && b != bit ==> bit32(final(self).0, b) == bit32(old(self).0, b),
    {
        let v: u32 = self.0;
        let m: u32 = 1u32 << bit;
        let b0: u32 = bit as u32;
        if on {
            self.0 = v | m;
            assert(bit32(v | m, b0)) by (bit_vector)
                requires
                    b0 < 32,
                    m == 1u32 << b0,
            ;
            assert forall|b: u32| b < 32 && b != b0 implies bit32(v | m, b) == bit32(v, b) by {
                assert(bit32(v | m, b) == bit32(v, b)) by (bit_vector)
                    requires
                        b < 32,
                        b0 < 32,
                        b != b0,
                        m == 1u32 << b0,
                ;
            }
        } else {
            self.0 = v & !m;
            assert(!bit32(v & !m, b0)) by (bit_vector)
                requires
                    b0 < 32,
                    m == 1u32 << b0,
            ;
            assert forall|b: u32| b < 32 && b != b0 implies bit32(v & !m, b) == bit32(v, b) by {
                assert(bit32(v & !m, b) == bit32(v, b)) by (bit_vector)
                    requires
                        b < 32,
                        b0 < 32,
                        b != b0,
                        m == 1u32 << b0,
                ;
            }
        }
    }

    /// Whether flag `bit` is set.
    pub fn is(&self, bit: u8) -> (r: bool)
        requires
            bit < 32,
        ensures
            r == bit32(self.0, bit as u32),
    {
        let v: u32 = self.0;
        let b0: u32 = bit as u32;
        let r = (v & (1u32 << b0)) > 0;
        assert(r == bit32(v, b0)) by (bit_vector)
            requires
                b0 < 32,
                r == ((v & (1u32 << b0)) > 0),
        ;
        r
    }

    /// All flags as one word.
    pub fn bits(&self) -> (r: u32)
        ensures
            r == self.0,
    {
        self.0
    }
}

/// Single bits of an integer, set and read by position.
pub trait SetBit: Sized {
    /// Number of bits.
    spec fn width() -> nat;

    /// Whether bit `bit` is set.
    spec fn bit_at(&self, bit: u8) -> bool;

    /// Sets bit `bit` to `on`, leaving the others as they are.
    fn set_bit(&mut self, bit: u8, on: bool)
        requires
            (bit as nat) < Self::width(),
        ensures
            final(self).bit_at(bit) == on,
            forall|b: u8| (b as nat) < Self::width() && b != bit ==> final(self).bit_at(b)
                == old(self).bit_at(b),
    ;

    /// Whether bit `bit` is set.
    fn is_bit(&self, bit: u8) -> (r: bool)
        requires
            (bit as nat) < Self::width(),
        ensures
            r == self.bit_at(bit),
    ;
}

impl SetBit for u16 {
    open spec fn width() -> nat {
        16
    }

    open spec fn bit_at(&self, bit: u8) -> bool {
        bit16(*self, bit as u16)
    }

    fn set_bit(&mut self, bit: u8, on: bool) {
        let v: u16 = *self;
        let b0: u16 = bit as u16;
        let m: u16 = 1u16 << b0;
        if on {
            *self = v | m;
            assert(bit16(v | m, b0)) by (bit_vector)
                requires
                    b0 < 16,
                    m == 1u16 << b0,
            ;
            assert forall|b: u8| b < 16 && b != bit implies #[trigger] bit16(v | m, b as u16) == bit16(
                v,
                b as u16,
            ) by {
                let b1 = b as u16;
                assert(bit16(v | m, b1) == bit16(v, b1)) by (bit_vector)
                    requires
                        b1 < 16,
                        b0 < 16,
                        b1 != b0,
                        m == 1u16 << b0,
                ;
            }
        } else {
            *self = v & !m;
            assert(!bit16(v & !m, b0)) by (bit_vector)
                requires
                    b0 < 16,
                    m == 1u16 << b0,
            ;
            assert forall|b: u8| b < 16 && b != bit implies #[trigger] bit16(v & !m, b as u16) == bit16(
                v,
                b as u16,
            ) by {
                let b1 = b as u16;
                assert(bit16(v & !m, b1) == bit16(v, b1)) by (bit_vector)
                    requires
                        b1 < 16,
                        b0 < 16,
                        b1 != b0,
                        m == 1u16 << b0,
                ;
            }
        }
    }

    fn is_bit(&self, bit: u8) -> (r: bool) {
        let v: u16 = *self;
        let b0: u16 = bit as u16;
        let r = (v & (1u16 << b0)) > 0;
        assert(r == bit16(v, b0)) by (bit_vector)
            requires
                b0 < 16,
                r == ((v & (1u16 << b0)) > 0),
        ;
        r
    }
}

} // verus!
