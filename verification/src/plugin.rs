//! Effects whose settings are whole numbers.

use vstd::prelude::*;

verus! {

/// An effect that reduces samples to a number of bits.
#[derive(Clone, Copy, Debug, PartialEq, Eq)]
pub struct BitCrusher {
    bits: u32,
}

impl BitCrusher {
    /// A bit crusher reducing samples to `bits` bits.
    pub fn new(bits: u32) -> (b: BitCrusher)
        ensures
            b.bits() == bits,
    {
        BitCrusher { bits }
    }

    pub closed spec fn bits_spec(&self) -> u32 {
        self.bits
    }

    /// The number of bits samples are reduced to.
    #[verifier::when_used_as_spec(bits_spec)]
    pub fn bits(&self) -> (r: u32)
        ensures
            r == self.bits_spec(),
    {
        self.bits
    }

    /// Sets the number of bits samples are reduced to.
    pub fn set_bits(&mut self, bits: u32)
        ensures
            final(self).bits() == bits,
    {
        self.bits = bits;
    }
}

} // verus!
