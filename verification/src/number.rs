//! Measured quantities that the editor stores for the renderer.
//!
//! A scale factor and an angle are real numbers to the renderer. The editor's
//! core only keeps them, copies them and hands them back, so it carries each as
//! the bit pattern of its binary form (IEEE 754) and never computes with it.

use vstd::prelude::*;

verus! {

/// A single-precision number, carried as its 32 bits.
#[derive(Clone, Copy, Debug, PartialEq, Eq, Structural)]
pub struct Single {
    pub bits: u32,
}

impl DeepView for Single {
    type V = Single;

    open spec fn deep_view(&self) -> Single {
        *self
    }
}

impl Single {
    /// The number 1.
    pub open spec fn spec_one() -> Single {
        Single { bits: 0x3f80_0000 }
    }

    /// The number 0.
    pub open spec fn spec_zero() -> Single {
        Single { bits: 0 }
    }

    pub fn from_bits(bits: u32) -> (v: Single)
        ensures
            v.bits == bits,
    {
        Single { bits }
    }

    pub fn to_bits(self) -> (bits: u32)
        ensures
            bits == self.bits,
    {
        self.bits
    }

    pub fn one() -> (v: Single)
        ensures
            v == Single::spec_one(),
    {
        Single { bits: 0x3f80_0000 }
    }

    pub fn zero() -> (v: Single)
        ensures
            v == Single::spec_zero(),
    {
        Single { bits: 0 }
    }
}

/// A double-precision number, carried as its 64 bits.
#[derive(Clone, Copy, Debug, PartialEq, Eq, Structural)]
pub struct Double {
    pub bits: u64,
}

impl DeepView for Double {
    type V = Double;

    open spec fn deep_view(&self) -> Double {
        *self
    }
}

impl Double {
    /// The number 0.
    pub open spec fn spec_zero() -> Double {
        Double { bits: 0 }
    }

    pub fn from_bits(bits: u64) -> (v: Double)
        ensures
            v.bits == bits,
    {
        Double { bits }
    }

    pub fn to_bits(self) -> (bits: u64)
        ensures
            bits == self.bits,
    {
        self.bits
    }

    pub fn zero() -> (v: Double)
        ensures
            v == Double::spec_zero(),
    {
        Double { bits: 0 }
    }
}

} // verus!
