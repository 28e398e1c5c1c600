//! Choice of a kernel implementation from the processor's capabilities.
use vstd::prelude::*;

verus! {

/// Vector-instruction capabilities of the executing processor.
#[derive(Clone, Copy, Debug, PartialEq, Eq, Structural)]
pub struct CapabilitySet {
    pub sse2: bool,
    pub avx: bool,
    pub avx2: bool,
    pub fma: bool,
}

/// One of the mutually exclusive kernel implementations.
#[derive(Clone, Copy, Debug, PartialEq, Eq, Structural)]
pub enum Tier {
    Scalar,
    Vec128,
    Vec256,
}

/// Number of `f64` lanes a tier processes per vector instruction.
pub open spec fn tier_lanes(t: Tier) -> nat {
    match t {
        Tier::Scalar => 1,
        Tier::Vec128 => 2,
        Tier::Vec256 => 4,
    }
}

impl Tier {
    pub fn lanes(&self) -> (r: usize)
        ensures
            r == tier_lanes(*self),
    {
        match self {
            Tier::Scalar => 1,
            Tier::Vec128 => 2,
            Tier::Vec256 => 4,
        }
    }
}

/// Tier chosen for an element-wise kernel on operands of length `len`.
pub open spec fn elementwise_tier(caps: CapabilitySet, len: nat) -> Tier {
    if caps.avx && len >= 4 {
        Tier::Vec256
    } else if caps.sse2 && len >= 2 {
        Tier::Vec128
    } else {
        Tier::Scalar
    }
}

/// Picks the implementation of `scale`, `fused_scale_add`, `add` and
/// `triangular_fused_scale_add`: the 256-bit tier when it is available and
/// `len` holds a whole block of it, else the 128-bit tier on the same terms,
/// else the scalar code.
pub fn select_tier(caps: &CapabilitySet, len: usize) -> (r: Tier)
    ensures
        r == elementwise_tier(*caps, len as nat),
        tier_lanes(r) <= len || r == Tier::Scalar,
{
    if caps.avx && len >= 4 {
        Tier::Vec256
    } else if caps.sse2 && len >= 2 {
        Tier::Vec128
    } else {
        Tier::Scalar
    }
}

/// Tier chosen for the 2×2 matrix product.
pub open spec fn matmul_2x2_tier_of(caps: CapabilitySet) -> Tier {
    if caps.avx2 && caps.fma {
        Tier::Vec256
    } else if caps.sse2 {
        Tier::Vec128
    } else {
        Tier::Scalar
    }
}

/// Picks the implementation of `small_matmul_2x2`: the fused 256-bit code
/// needs both AVX2 and FMA, the 128-bit code SSE2.
pub fn matmul_2x2_tier(caps: &CapabilitySet) -> (r: Tier)
    ensures
        r == matmul_2x2_tier_of(*caps),
{
    if caps.avx2 && caps.fma {
        Tier::Vec256
    } else if caps.sse2 {
        Tier::Vec128
    } else {
        Tier::Scalar
    }
}

} // verus!
