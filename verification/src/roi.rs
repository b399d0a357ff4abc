//! Returns on investment, as the engine carries and orders them.

use vstd::prelude::*;

verus! {

/// A return on investment in percent, carried as the 64-bit pattern of a
/// double-precision number: the sign in the highest bit, the magnitude below.
///
/// The library never computes with the number. It stores it, hands it back and
/// orders it: `key` maps the patterns onto the integers so that a greater
/// return has a greater key.
#[derive(Clone, Copy, Debug, PartialEq, Eq, Structural)]
pub struct Roi {
    pub bits: u64,
}

/// The pattern whose only set bit is the sign.
pub const SIGN_BIT: u64 = 0x8000_0000_0000_0000;

impl Roi {
    /// The place of this return in the order of all returns. Patterns without
    /// the sign stand in the order of their magnitude, from 0 up; patterns with
    /// it stand below them, the greater magnitude further down.
    pub open spec fn key(self) -> int {
        if self.bits < SIGN_BIT {
            self.bits as int
        } else {
            SIGN_BIT - 1 - self.bits
        }
    }

    /// The return with the given bit pattern.
    pub fn from_bits(bits: u64) -> (roi: Roi)
        ensures
            roi.bits == bits,
    {
        Roi { bits }
    }

    /// The bit pattern of this return.
    pub fn to_bits(&self) -> (bits: u64)
        ensures
            bits == self.bits,
    {
        self.bits
    }

    /// Computes `key`.
    pub fn order_key(&self) -> (key: i64)
        ensures
            key == self.key(),
    {
        if self.bits < SIGN_BIT {
            self.bits as i64
        } else {
            let magnitude: u64 = self.bits - SIGN_BIT;
            -1 - (magnitude as i64)
        }
    }

    /// Two returns with one key are one return.
    pub proof fn lemma_key_injective(a: Roi, b: Roi)
        requires
            a.key() == b.key(),
        ensures
            a == b,
    {
    }
}

} // verus!
