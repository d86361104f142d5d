//! The three fractal families, their names and their renderer ids.
use vstd::prelude::*;
use crate::text::same_text;

verus! {

/// One of the three built-in fractal families.
#[derive(Clone, Copy, Debug, PartialEq, Eq, Structural)]
pub enum FractalFamily {
    Mandelbulb,
    Julia4D,
    KaleidoIFS,
}

/// The renderer id of a family: 0, 1 and 2 in declaration order.
pub open spec fn family_id(f: FractalFamily) -> nat {
    match f {
        FractalFamily::Mandelbulb => 0,
        FractalFamily::Julia4D => 1,
        FractalFamily::KaleidoIFS => 2,
    }
}

/// The family with renderer id `i % 3`.
pub open spec fn family_with_id(i: nat) -> FractalFamily {
    if i % 3 == 0 {
        FractalFamily::Mandelbulb
    } else if i % 3 == 1 {
        FractalFamily::Julia4D
    } else {
        FractalFamily::KaleidoIFS
    }
}

/// The family that a seed selects: `seed mod 3`.
pub open spec fn family_of_seed(seed: u32) -> FractalFamily {
    family_with_id(seed as nat)
}

/// The serialization tag of a family.
pub open spec fn family_name(f: FractalFamily) -> Seq<char> {
    match f {
        FractalFamily::Mandelbulb => "Mandelbulb"@,
        FractalFamily::Julia4D => "Julia4D"@,
        FractalFamily::KaleidoIFS => "KaleidoIFS"@,
    }
}

impl FractalFamily {
    /// The family that `seed` selects.
    pub fn from_seed(seed: u32) -> (r: FractalFamily)
        ensures
            r == family_of_seed(seed),
            family_id(r) == seed % 3,
    {
        let k = seed % 3;
        if k == 0 {
            FractalFamily::Mandelbulb
        } else if k == 1 {
            FractalFamily::Julia4D
        } else {
            FractalFamily::KaleidoIFS
        }
    }

    /// The renderer id of this family.
    pub fn gpu_id(&self) -> (r: u8)
        ensures
            r == family_id(*self),
    {
        match self {
            FractalFamily::Mandelbulb => 0,
            FractalFamily::Julia4D => 1,
            FractalFamily::KaleidoIFS => 2,
        }
    }

    /// The family with renderer id `id`; an unknown id reads as Mandelbulb.
    pub fn from_gpu_id(id: u8) -> (r: FractalFamily)
        ensures
            id < 3 ==> family_id(r) == id,
            id >= 3 ==> r == FractalFamily::Mandelbulb,
    {
        if id == 1 {
            FractalFamily::Julia4D
        } else if id == 2 {
            FractalFamily::KaleidoIFS
        } else {
            FractalFamily::Mandelbulb
        }
    }

    /// The serialization tag of this family.
    pub fn name(&self) -> (r: &'static str)
        ensures
            r@ == family_name(*self),
    {
        match self {
            FractalFamily::Mandelbulb => "Mandelbulb",
            FractalFamily::Julia4D => "Julia4D",
            FractalFamily::KaleidoIFS => "KaleidoIFS",
        }
    }

    /// The family whose tag is `name`, if any.
    pub fn from_name(name: &str) -> (r: Option<FractalFamily>)
        ensures
            name@ == family_name(FractalFamily::Mandelbulb) ==> r == Some(FractalFamily::Mandelbulb),
            name@ == family_name(FractalFamily::Julia4D) ==> r == Some(FractalFamily::Julia4D),
            name@ == family_name(FractalFamily::KaleidoIFS) ==> r == Some(FractalFamily::KaleidoIFS),
            forall|f: FractalFamily| r == Some(f) ==> name@ == family_name(f),
    {
        proof {
            lemma_family_names_distinct();
            assert(family_name(FractalFamily::Mandelbulb) != family_name(FractalFamily::Julia4D));
            assert(family_name(FractalFamily::Mandelbulb) != family_name(FractalFamily::KaleidoIFS));
            assert(family_name(FractalFamily::Julia4D) != family_name(FractalFamily::KaleidoIFS));
        }
        let r = if same_text(name, "Mandelbulb") {
            Some(FractalFamily::Mandelbulb)
        } else if same_text(name, "Julia4D") {
            Some(FractalFamily::Julia4D)
        } else if same_text(name, "KaleidoIFS") {
            Some(FractalFamily::KaleidoIFS)
        } else {
            None
        };
        assert forall|f: FractalFamily| r == Some(f) <==> name@ == family_name(f) by {
            match f {
                FractalFamily::Mandelbulb => {},
                FractalFamily::Julia4D => {},
                FractalFamily::KaleidoIFS => {},
            }
        }
        r
    }
}

/// The three tags are pairwise distinct.
pub proof fn lemma_family_names_distinct()
    ensures
        forall|f: FractalFamily, g: FractalFamily| family_name(f) == family_name(g) ==> f == g,
{
    reveal_strlit("Mandelbulb");
    reveal_strlit("Julia4D");
    reveal_strlit("KaleidoIFS");
    assert("Mandelbulb"@.len() != "Julia4D"@.len());
    assert("Julia4D"@.len() != "KaleidoIFS"@.len());
    assert("Mandelbulb"@[0] != "KaleidoIFS"@[0]);
}

/// Seeds select families cyclically: `seed mod 3` of 0, 1, 2 gives
/// Mandelbulb, Julia4D and KaleidoIFS, and adding 3 keeps the family.
pub proof fn lemma_family_cycle(seed: u32)
    requires
        seed as int + 3 <= u32::MAX,
    ensures
        family_of_seed(0) == FractalFamily::Mandelbulb,
        family_of_seed(1) == FractalFamily::Julia4D,
        family_of_seed(2) == FractalFamily::KaleidoIFS,
        family_of_seed((seed + 3) as u32) == family_of_seed(seed),
{
}

/// A family's renderer id and its tag each lead back to it.
pub proof fn lemma_family_round_trip(f: FractalFamily)
    ensures
        family_with_id(family_id(f)) == f,
        family_id(f) < 3,
{
}

} // verus!
