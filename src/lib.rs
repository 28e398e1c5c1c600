//! Verified core of a scaling-and-squaring Padé matrix exponential engine:
//! the exact Padé coefficient table and degree checks, the scaling exponent
//! taken from the bit pattern of a norm, the squaring schedule, the engine's
//! step program (proved to compute the scaled-and-squared approximant), the
//! choice of kernel tier, the index regions the kernels visit, the scalar
//! kernels themselves (generic over the element operation) and the host
//! array descriptor.

pub mod dispatch;
pub mod kernels;
pub mod mx;
pub mod pade;
pub mod program;
pub mod region;
pub mod scaling;
