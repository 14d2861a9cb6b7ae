//! Processing flags: a set of bits, eleven of which are named.
use vstd::prelude::*;

verus! {

/// Processing flags for ease of handling command-line options.
///
/// Each named flag owns one bit; any other bit is kept as it is, as in a
/// value built from raw bits.
#[derive(Clone, PartialEq, Eq)]
pub struct ProcFlags {
    bits: u32,
}

impl View for ProcFlags {
    type V = u32;

    closed spec fn view(&self) -> u32 {
        self.bits
    }
}

/// True when every bit of `flag` is set in `bits`.
pub open spec fn has_flag(bits: u32, flag: u32) -> bool {
    bits & flag == flag
}

impl ProcFlags {
    pub const GENERATE: u32 = 1;
    pub const BUILD: u32 = 2;
    pub const FORCE: u32 = 4;
    pub const RUN: u32 = 8;
    pub const ALL: u32 = 16;
    pub const VERBOSE: u32 = 32;
    pub const TIMINGS: u32 = 64;
    pub const REPL: u32 = 128;
    pub const EXPR: u32 = 256;
    pub const STDIN: u32 = 512;
    pub const QUIET: u32 = 1024;
    /// The union of the bits of all named flags.
    pub const NAMED: u32 = 2047;

    /// The value with no bit set.
    pub fn empty() -> (r: ProcFlags)
        ensures
            r@ == 0,
    {
        ProcFlags { bits: 0 }
    }

    /// The value whose bits are exactly `bits`, unknown bits included.
    pub fn from_bits_retain(bits: u32) -> (r: ProcFlags)
        ensures
            r@ == bits,
    {
        ProcFlags { bits }
    }

    /// The raw bits.
    pub fn bits(&self) -> (r: u32)
        ensures
            r == self@,
    {
        self.bits
    }

    /// Whether every bit of `flag` is set.
    pub fn contains(&self, flag: u32) -> (r: bool)
        ensures
            r == has_flag(self@, flag),
    {
        self.bits & flag == flag
    }

    /// Whether no bit is set.
    pub fn is_empty(&self) -> (r: bool)
        ensures
            r == (self@ == 0),
    {
        self.bits == 0
    }

    /// Sets the bits of `flag`.
    pub fn insert(&mut self, flag: u32)
        ensures
            final(self)@ == old(self)@ | flag,
    {
        self.bits = self.bits | flag;
    }

    /// Clears the bits of `flag`.
    pub fn remove(&mut self, flag: u32)
        ensures
            final(self)@ == old(self)@ & !flag,
    {
        self.bits = self.bits & !flag;
    }

    /// Sets the bits of `flag` when `value` holds and clears them otherwise.
    pub fn set(&mut self, flag: u32, value: bool)
        ensures
            final(self)@ == (if value { old(self)@ | flag } else { old(self)@ & !flag }),
    {
        if value {
            self.insert(flag);
        } else {
            self.remove(flag);
        }
    }

    /// Bitwise equality of two values.
    pub fn equals(&self, other: &ProcFlags) -> (r: bool)
        ensures
            r == (self@ == other@),
    {
        self.bits == other.bits
    }
}

} // verus!
