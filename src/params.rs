//! Integer field parameters derived from a seed.
//!
//! Every parameter is an integer sub-field of the seed. The real-valued
//! parameters of a field are affine in them: a Mandelbulb's power is
//! `power`, a Julia constant component is `(c / 1000 - 0.5) * 2`, and a
//! kaleidoscopic scale is `1.5 + 0.3 * scale_step`.
use vstd::prelude::*;
use crate::family::{FractalFamily, family_of_seed};

verus! {

/// The integer parameters of one field, by family.
#[derive(Clone, Copy, Debug, PartialEq, Eq, Structural)]
pub enum FamilyParams {
    Mandelbulb { power: u32, iterations: u32 },
    Julia4D { cx: u32, cy: u32, cz: u32, cw: u32, iterations: u32 },
    KaleidoIFS { fold_count: u32, scale_step: u32 },
}

/// The parameters that `seed` selects.
pub open spec fn params_of_seed(seed: u32) -> FamilyParams {
    if seed % 3 == 0 {
        FamilyParams::Mandelbulb {
            power: (6 + (seed / 3) % 8) as u32,
            iterations: (8 + (seed / 24) % 4) as u32,
        }
    } else if seed % 3 == 1 {
        FamilyParams::Julia4D {
            cx: ((seed / 100) % 1000) as u32,
            cy: ((seed / 100 / 1000) % 1000) as u32,
            cz: ((seed / 100 / 1000000) % 1000) as u32,
            cw: ((seed / 100 / 1000000000) % 1000) as u32,
            iterations: (8 + (seed / 13) % 6) as u32,
        }
    } else {
        FamilyParams::KaleidoIFS {
            fold_count: (4 + (seed / 7) % 8) as u32,
            scale_step: ((seed / 17) % 10) as u32,
        }
    }
}

/// The family of a parameter record.
pub open spec fn params_family(p: FamilyParams) -> FractalFamily {
    match p {
        FamilyParams::Mandelbulb { .. } => FractalFamily::Mandelbulb,
        FamilyParams::Julia4D { .. } => FractalFamily::Julia4D,
        FamilyParams::KaleidoIFS { .. } => FractalFamily::KaleidoIFS,
    }
}

/// The number of loop passes that a distance estimate may take.
pub open spec fn loop_cap(p: FamilyParams) -> u32 {
    match p {
        FamilyParams::Mandelbulb { iterations, .. } => iterations,
        FamilyParams::Julia4D { iterations, .. } => iterations,
        FamilyParams::KaleidoIFS { fold_count, .. } => fold_count,
    }
}

/// Parameters are in their documented ranges: loop caps small and positive,
/// Julia digits below 1000, scale steps below 10.
pub open spec fn params_valid(p: FamilyParams) -> bool {
    match p {
        FamilyParams::Mandelbulb { power, iterations } => 6 <= power <= 13 && 8 <= iterations <= 11,
        FamilyParams::Julia4D { cx, cy, cz, cw, iterations } => cx < 1000 && cy < 1000 && cz < 1000
            && cw < 1000 && 8 <= iterations <= 13,
        FamilyParams::KaleidoIFS { fold_count, scale_step } => 4 <= fold_count <= 11 && scale_step < 10,
    }
}

impl FamilyParams {
    /// The parameters that `seed` selects; the family is `seed mod 3`.
    pub fn from_seed(seed: u32) -> (r: FamilyParams)
        ensures
            r == params_of_seed(seed),
            params_family(r) == family_of_seed(seed),
            params_valid(r),
    {
        if seed % 3 == 0 {
            FamilyParams::Mandelbulb { power: 6 + (seed / 3) % 8, iterations: 8 + (seed / 24) % 4 }
        } else if seed % 3 == 1 {
            let c_seed = seed / 100;
            FamilyParams::Julia4D {
                cx: c_seed % 1000,
                cy: (c_seed / 1000) % 1000,
                cz: (c_seed / 1000000) % 1000,
                cw: (c_seed / 1000000000) % 1000,
                iterations: 8 + (seed / 13) % 6,
            }
        } else {
            FamilyParams::KaleidoIFS { fold_count: 4 + (seed / 7) % 8, scale_step: (seed / 17) % 10 }
        }
    }

    /// The family of these parameters.
    pub fn family(&self) -> (r: FractalFamily)
        ensures
            r == params_family(*self),
    {
        match self {
            FamilyParams::Mandelbulb { .. } => FractalFamily::Mandelbulb,
            FamilyParams::Julia4D { .. } => FractalFamily::Julia4D,
            FamilyParams::KaleidoIFS { .. } => FractalFamily::KaleidoIFS,
        }
    }

    /// The iteration cap (Mandelbulb, Julia4D) or fold count (KaleidoIFS).
    pub fn loop_cap(&self) -> (r: u32)
        ensures
            r == loop_cap(*self),
    {
        match self {
            FamilyParams::Mandelbulb { iterations, .. } => *iterations,
            FamilyParams::Julia4D { iterations, .. } => *iterations,
            FamilyParams::KaleidoIFS { fold_count, .. } => *fold_count,
        }
    }
}

/// Every seed gives a field whose loop runs at least four and at most
/// thirteen passes.
pub proof fn lemma_loop_cap_bounded(seed: u32)
    ensures
        4 <= loop_cap(params_of_seed(seed)) <= 13,
{
}

/// The parameters depend on the seed alone, and their family is the one
/// that the seed selects.
pub proof fn lemma_params_agree_with_family(seed: u32)
    ensures
        params_family(params_of_seed(seed)) == family_of_seed(seed),
        params_valid(params_of_seed(seed)),
{
}

} // verus!
