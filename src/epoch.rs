//! Epochs: a monotonically increasing counter naming a committee period.

use vstd::prelude::*;

verus! {

/// A committee membership period.
#[derive(Copy, Clone, Debug, PartialEq, Eq, Structural, PartialOrd, Ord, Hash)]
pub struct Epoch(pub u64);

/// Byte `i` (little endian) of `x`.
pub open spec fn le_byte(x: u64, i: int) -> u8 {
    ((x >> ((8 * i) as u64)) & 0xff) as u8
}

impl Epoch {
    pub fn zero() -> (r: Epoch)
        ensures
            r.0 == 0,
    {
        Epoch(0)
    }

    pub fn as_u64(self) -> (r: u64)
        ensures
            r == self.0,
    {
        self.0
    }

    pub fn is_zero(&self) -> (r: bool)
        ensures
            r == (self.0 == 0),
    {
        self.0 == 0
    }

    /// The eight bytes of the epoch number, least significant first.
    pub fn to_le_bytes(self) -> (r: [u8; 8])
        ensures
            forall|i: int| 0 <= i < 8 ==> #[trigger] r@[i] == le_byte(self.0, i),
    {
        let x = self.0;
        let r: [u8; 8] = [
            (x & 0xff) as u8,
            ((x >> 8u64) & 0xff) as u8,
            ((x >> 16u64) & 0xff) as u8,
            ((x >> 24u64) & 0xff) as u8,
            ((x >> 32u64) & 0xff) as u8,
            ((x >> 40u64) & 0xff) as u8,
            ((x >> 48u64) & 0xff) as u8,
            ((x >> 56u64) & 0xff) as u8,
        ];
        assert forall|i: int| 0 <= i < 8 implies #[trigger] r@[i] == le_byte(x, i) by {
            assert(x == x >> 0u64) by (bit_vector);
        }
        r
    }

    /// `self - other`, or zero where `other` is the later epoch.
    pub fn saturating_sub(&self, other: Epoch) -> (r: Epoch)
        ensures
            r.0 == if self.0 >= other.0 { self.0 - other.0 } else { 0 },
    {
        Epoch(self.0.saturating_sub(other.0))
    }

    /// `self - other`, or `None` where `other` is the later epoch.
    pub fn checked_sub(&self, other: Epoch) -> (r: Option<Epoch>)
        ensures
            self.0 >= other.0 ==> r == Some(Epoch((self.0 - other.0) as u64)),
            self.0 < other.0 ==> r.is_none(),
    {
        match self.0.checked_sub(other.0) {
            Some(v) => Some(Epoch(v)),
            None => None,
        }
    }

    /// Whether the epoch number equals `other`.
    pub fn eq_u64(&self, other: u64) -> (r: bool)
        ensures
            r == (self.0 == other),
    {
        self.0 == other
    }
}

impl From<u64> for Epoch {
    fn from(e: u64) -> (r: Epoch) {
        Epoch(e)
    }
}

impl vstd::std_specs::convert::FromSpecImpl<u64> for Epoch {
    open spec fn obeys_from_spec() -> bool {
        true
    }

    open spec fn from_spec(e: u64) -> Epoch {
        Epoch(e)
    }
}

} // verus!
