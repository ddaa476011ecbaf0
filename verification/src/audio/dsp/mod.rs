//! Choice of the processing kernels: CPU feature flags, their detection,
//! and which kernel each block operation runs.

use vstd::prelude::*;
use crate::audio::BLOCK_SIZE;

pub mod arm;
pub mod x86;

verus! {

/// A CPU feature flag. It is set once: the first value set sticks, and a
/// flag never set reads as off.
#[derive(Debug)]
pub struct FeatureFlag {
    value: Option<bool>,
}

impl FeatureFlag {
    /// The value set, if any.
    pub closed spec fn spec_value(&self) -> Option<bool> {
        self.value
    }

    /// What the flag reads.
    pub open spec fn spec_get(&self) -> bool {
        match self.spec_value() {
            Some(v) => v,
            None => false,
        }
    }

    pub fn new() -> (r: FeatureFlag)
        ensures
            r.spec_value() is None,
    {
        FeatureFlag { value: None }
    }

    pub fn get(&self) -> (r: bool)
        ensures
            r == self.spec_get(),
    {
        match self.value {
            Some(v) => v,
            None => false,
        }
    }

    /// Sets the flag unless it was set before.
    pub fn set(&mut self, value: bool)
        ensures
            final(self).spec_value() == (match old(self).spec_value() {
                Some(v) => Some(v),
                None => Some(value),
            }),
    {
        if self.value.is_none() {
            self.value = Some(value);
        }
    }

    /// Forces the flag to `value`, whatever was set before.
    pub(crate) fn force(&mut self, value: bool)
        ensures
            final(self).spec_value() == Some(value),
    {
        self.value = Some(value);
    }
}

/// Which kernel a block operation runs.
#[derive(Debug, Clone, Copy, PartialEq, Eq, Structural)]
pub enum Kernel {
    Avx512,
    Avx2,
    Avx,
    Sse42,
    Neon,
    Sve,
    Fallback,
}

/// The vector kernels need blocks made of whole 32-sample chunks on x86
/// and of whole 4-sample chunks on ARM.
pub open spec fn x86_aligned() -> bool {
    BLOCK_SIZE % 32 == 0
}

pub open spec fn arm_aligned() -> bool {
    BLOCK_SIZE % 4 == 0
}

} // verus!
