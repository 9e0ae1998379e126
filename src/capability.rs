//! Vector instruction support of the running processor.
//!
//! Detection itself queries the processor and happens once, at the edge of
//! the program; the library receives the answer as plain flags and chooses
//! the kernel tier from it.

use crate::kernel::Tier;
use vstd::prelude::*;

verus! {

/// Which vector instruction sets the processor supports.  Only `avx2` and
/// `sse2` select a kernel tier; the others are reported as detected.
#[derive(Clone, Copy, Debug, PartialEq, Eq, Structural)]
pub struct CpuFeatures {
    pub avx2: bool,
    pub sse2: bool,
    pub sse4_1: bool,
    pub sse4_2: bool,
    pub fma: bool,
}

/// The tiers available with `f`, from most to least capable; the scalar
/// tier is always available.
pub open spec fn available_tiers(f: CpuFeatures) -> Seq<Tier> {
    (if f.avx2 {
        seq![Tier::Avx2]
    } else {
        seq![]
    }) + (if f.sse2 {
        seq![Tier::Sse2]
    } else {
        seq![]
    }) + seq![Tier::Scalar]
}

impl CpuFeatures {
    /// A processor without vector support.
    pub fn scalar_only() -> (r: CpuFeatures)
        ensures
            r == (CpuFeatures { avx2: false, sse2: false, sse4_1: false, sse4_2: false, fma: false }),
            available_tiers(r) == seq![Tier::Scalar],
    {
        let r = CpuFeatures { avx2: false, sse2: false, sse4_1: false, sse4_2: false, fma: false };
        assert(available_tiers(r) == seq![Tier::Scalar]);
        r
    }

    /// The available tiers, most capable first.
    pub fn available_tiers(&self) -> (r: Vec<Tier>)
        ensures
            r@ == available_tiers(*self),
    {
        let mut r: Vec<Tier> = Vec::new();
        if self.avx2 {
            r.push(Tier::Avx2);
        }
        if self.sse2 {
            r.push(Tier::Sse2);
        }
        r.push(Tier::Scalar);
        assert(r@ == available_tiers(*self));
        r
    }

    /// The most capable available tier.
    pub fn best_tier(&self) -> (r: Tier)
        ensures
            r == available_tiers(*self)[0],
    {
        if self.avx2 {
            Tier::Avx2
        } else if self.sse2 {
            Tier::Sse2
        } else {
            Tier::Scalar
        }
    }
}

} // verus!
