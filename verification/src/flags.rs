use vstd::prelude::*;

verus! {

/// The flags byte of a POSITION frame.
///
/// Bit 0 is GPS_VALID, bit 1 is SOS, bit 2 is BATT_LOW; bits 3..7 are
/// reserved and must be zero on the wire.
#[derive(Debug, Clone, Copy, PartialEq, Eq, Default, Structural)]
pub struct Flags(pub u8);

impl Flags {
    pub const GPS_VALID_MASK: u8 = 0x01;
    pub const SOS_MASK: u8 = 0x02;
    pub const BATT_LOW_MASK: u8 = 0x04;
    pub const RESERVED_MASK: u8 = 0xF8;

    /// Bit 0 of the byte is set.
    pub open spec fn spec_gps_valid(self) -> bool {
        self.0 % 2 == 1
    }

    /// Bit 1 of the byte is set.
    pub open spec fn spec_sos(self) -> bool {
        (self.0 / 2) % 2 == 1
    }

    /// Bit 2 of the byte is set.
    pub open spec fn spec_batt_low(self) -> bool {
        (self.0 / 4) % 2 == 1
    }

    /// One of bits 3..7 of the byte is set.
    pub open spec fn spec_has_reserved_bits(self) -> bool {
        self.0 >= 8
    }

    pub fn gps_valid(self) -> (b: bool)
        ensures
            b == self.spec_gps_valid(),
    {
        let x: u8 = self.0;
        let b = x & Self::GPS_VALID_MASK != 0;
        assert(b == (x % 2 == 1)) by (bit_vector)
            requires
                b == (x & 0x01 != 0),
        ;
        b
    }

    pub fn sos(self) -> (b: bool)
        ensures
            b == self.spec_sos(),
    {
        let x: u8 = self.0;
        let b = x & Self::SOS_MASK != 0;
        assert(b == ((x / 2) % 2 == 1)) by (bit_vector)
            requires
                b == (x & 0x02 != 0),
        ;
        b
    }

    pub fn batt_low(self) -> (b: bool)
        ensures
            b == self.spec_batt_low(),
    {
        let x: u8 = self.0;
        let b = x & Self::BATT_LOW_MASK != 0;
        assert(b == ((x / 4) % 2 == 1)) by (bit_vector)
            requires
                b == (x & 0x04 != 0),
        ;
        b
    }

    pub fn has_reserved_bits(self) -> (b: bool)
        ensures
            b == self.spec_has_reserved_bits(),
    {
        let x: u8 = self.0;
        let b = x & Self::RESERVED_MASK != 0;
        assert(b == (x >= 8)) by (bit_vector)
            requires
                b == (x & 0xF8 != 0),
        ;
        b
    }
}

} // verus!
