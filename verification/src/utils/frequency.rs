use vstd::prelude::*;

verus! {

/// The fixed-point value of one whole execution per tick.
pub const FREQUENCY_ONE: u64 = 0x1_0000_0000;

/// A rate that is never negative, in 32.32 fixed point: the rate is
/// `bits / 2^32`, so `FREQUENCY_ONE` stands for once per tick and half of it
/// for once every other tick.
#[derive(Clone, Copy, Debug, PartialEq, Eq, Structural)]
pub struct Frequency {
    bits: u64,
}

impl View for Frequency {
    type V = int;

    closed spec fn view(&self) -> int {
        self.bits as int
    }
}

impl Frequency {
    /// The rate with the given fixed-point value. A negative value is no rate
    /// and is rejected.
    pub fn new(bits: i64) -> (frequency: Option<Frequency>)
        ensures
            frequency.is_some() <==> bits >= 0,
            frequency matches Some(f) ==> f@ == bits,
    {
        if bits < 0 {
            None
        } else {
            Some(Frequency { bits: bits as u64 })
        }
    }

    /// The rate of `whole + fraction / 2^32` per tick.
    pub fn from_parts(whole: u32, fraction: u32) -> (frequency: Frequency)
        ensures
            frequency@ == whole * FREQUENCY_ONE + fraction,
    {
        Frequency { bits: whole as u64 * FREQUENCY_ONE + fraction as u64 }
    }

    /// The fixed-point value.
    pub fn bits(&self) -> (bits: u64)
        ensures
            bits == self@,
    {
        self.bits
    }

    /// Whether the rate is zero.
    pub fn is_zero(&self) -> (zero: bool)
        ensures
            zero <==> self@ == 0,
    {
        self.bits == 0
    }

    /// A rate is never negative and fits the machine word that holds it.
    pub proof fn lemma_range(self)
        ensures
            0 <= self@ <= u64::MAX,
    {
    }
}

} // verus!
