//! The x86 feature flags and the kernels that use them.

use vstd::prelude::*;
use crate::audio::BLOCK_SIZE;
use crate::audio::dsp::{x86_aligned, FeatureFlag, Kernel};

verus! {

/// The x86 features the kernels use.
#[derive(Debug)]
pub struct X86Features {
    pub sse42: FeatureFlag,
    pub avx: FeatureFlag,
    pub avx2: FeatureFlag,
    pub avx512: FeatureFlag,
}

impl X86Features {
    /// All flags unset.
    pub fn new() -> (r: X86Features)
        ensures
            r.sse42.spec_value() is None,
            r.avx.spec_value() is None,
            r.avx2.spec_value() is None,
            r.avx512.spec_value() is None,
    {
        X86Features {
            sse42: FeatureFlag::new(),
            avx: FeatureFlag::new(),
            avx2: FeatureFlag::new(),
            avx512: FeatureFlag::new(),
        }
    }
}

/// The value a set-once flag holds after `value` is set on it.
pub open spec fn after_set(old_value: Option<bool>, value: bool) -> Option<bool> {
    match old_value {
        Some(v) => Some(v),
        None => Some(value),
    }
}

/// Records what the CPU was found to support; flags set before keep
/// their value.
pub fn detect_features(features: &mut X86Features, sse42: bool, avx: bool, avx2: bool, avx512: bool)
    ensures
        final(features).sse42.spec_value() == after_set(old(features).sse42.spec_value(), sse42),
        final(features).avx.spec_value() == after_set(old(features).avx.spec_value(), avx),
        final(features).avx2.spec_value() == after_set(old(features).avx2.spec_value(), avx2),
        final(features).avx512.spec_value() == after_set(old(features).avx512.spec_value(), avx512),
{
    features.sse42.set(sse42);
    features.avx.set(avx);
    features.avx2.set(avx2);
    features.avx512.set(avx512);
}

/// Turns every feature off, whatever was detected, so that only the
/// portable kernels run.
pub fn disable_all_features(features: &mut X86Features)
    ensures
        final(features).sse42.spec_value() == Some(false),
        final(features).avx.spec_value() == Some(false),
        final(features).avx2.spec_value() == Some(false),
        final(features).avx512.spec_value() == Some(false),
{
    features.sse42.force(false);
    features.avx.force(false);
    features.avx2.force(false);
    features.avx512.force(false);
}

/// The best kernel the flags allow, by priority AVX-512, AVX2, AVX,
/// SSE4.2; `with_avx512` says whether the operation has an AVX-512 kernel.
pub open spec fn spec_x86_kernel(features: X86Features, with_avx512: bool) -> Kernel {
    if x86_aligned() && with_avx512 && features.avx512.spec_get() {
        Kernel::Avx512
    } else if x86_aligned() && features.avx2.spec_get() {
        Kernel::Avx2
    } else if x86_aligned() && features.avx.spec_get() {
        Kernel::Avx
    } else if x86_aligned() && features.sse42.spec_get() {
        Kernel::Sse42
    } else {
        Kernel::Fallback
    }
}

fn select(features: &X86Features, with_avx512: bool) -> (r: Kernel)
    ensures
        r == spec_x86_kernel(*features, with_avx512),
{
    let aligned = BLOCK_SIZE % 32 == 0;
    if aligned && with_avx512 && features.avx512.get() {
        Kernel::Avx512
    } else if aligned && features.avx2.get() {
        Kernel::Avx2
    } else if aligned && features.avx.get() {
        Kernel::Avx
    } else if aligned && features.sse42.get() {
        Kernel::Sse42
    } else {
        Kernel::Fallback
    }
}

/// The kernel that interleaves a planar block.
pub fn interleave_kernel(features: &X86Features) -> (r: Kernel)
    ensures
        r == spec_x86_kernel(*features, true),
{
    select(features, true)
}

/// The kernel that adds one block into another.
pub fn add_kernel(features: &X86Features) -> (r: Kernel)
    ensures
        r == spec_x86_kernel(*features, true),
{
    select(features, true)
}

/// The kernel that adds a scaled block into another; it has no AVX-512
/// kernel.
pub fn addm_kernel(features: &X86Features) -> (r: Kernel)
    ensures
        r == spec_x86_kernel(*features, false),
{
    select(features, false)
}

/// A flag keeps the first value set on it: detecting again never changes
/// what was detected.
pub proof fn law_first_detection_sticks(first: bool, later: bool)
    ensures
        after_set(after_set(None, first), later) == Some(first),
{
}

} // verus!
