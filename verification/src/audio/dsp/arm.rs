//! The ARM feature flags and the kernels that use them.

use vstd::prelude::*;
use crate::audio::BLOCK_SIZE;
use crate::audio::dsp::{arm_aligned, FeatureFlag, Kernel};
use crate::audio::dsp::x86::after_set;

verus! {

/// The ARM features the kernels use.
#[derive(Debug)]
pub struct ArmFeatures {
    pub neon: FeatureFlag,
    pub sve: FeatureFlag,
}

impl ArmFeatures {
    /// All flags unset.
    pub fn new() -> (r: ArmFeatures)
        ensures
            r.neon.spec_value() is None,
            r.sve.spec_value() is None,
    {
        ArmFeatures { neon: FeatureFlag::new(), sve: FeatureFlag::new() }
    }
}

/// Records what the CPU was found to support; flags set before keep
/// their value.
pub fn detect_features(features: &mut ArmFeatures, neon: bool, sve: bool)
    ensures
        final(features).neon.spec_value() == after_set(old(features).neon.spec_value(), neon),
        final(features).sve.spec_value() == after_set(old(features).sve.spec_value(), sve),
{
    features.neon.set(neon);
    features.sve.set(sve);
}

/// Turns every feature off, whatever was detected.
pub fn disable_all_features(features: &mut ArmFeatures)
    ensures
        final(features).neon.spec_value() == Some(false),
        final(features).sve.spec_value() == Some(false),
{
    features.neon.force(false);
    features.sve.force(false);
}

/// The best kernel the flags allow, NEON before SVE.
pub open spec fn spec_arm_kernel(features: ArmFeatures) -> Kernel {
    if arm_aligned() && features.neon.spec_get() {
        Kernel::Neon
    } else if arm_aligned() && features.sve.spec_get() {
        Kernel::Sve
    } else {
        Kernel::Fallback
    }
}

/// The kernel that adds one block, or a scaled block, into another.
pub fn add_kernel(features: &ArmFeatures) -> (r: Kernel)
    ensures
        r == spec_arm_kernel(*features),
{
    let aligned = BLOCK_SIZE % 4 == 0;
    if aligned && features.neon.get() {
        Kernel::Neon
    } else if aligned && features.sve.get() {
        Kernel::Sve
    } else {
        Kernel::Fallback
    }
}

} // verus!
