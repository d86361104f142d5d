//! Records exchanged when a fractal is shared: the compact form carried in
//! a link, and a share token that expires.
use vstd::prelude::*;
use crate::family::{FractalFamily, family_id, family_name, family_with_id};

verus! {

/// Milliseconds in one hour.
pub const MILLIS_PER_HOUR: u64 = 3600000;

/// The compact form of a snapshot carried in a share link.
#[derive(Clone, Copy, Debug, PartialEq, Eq, Structural)]
pub struct CompactFractal {
    pub seed: u32,
    /// Renderer id of the family.
    pub fractal_type: u8,
    /// Complexity score in hundredths.
    pub complexity: u16,
    /// Interaction count, saturated at 255.
    pub interactions: u8,
}

/// The renderer id written for a family tag: that of the family it names,
/// or 0 for an unknown tag.
pub open spec fn type_id_for_name(name: Seq<char>) -> nat {
    if name == family_name(FractalFamily::Julia4D) {
        1
    } else if name == family_name(FractalFamily::KaleidoIFS) {
        2
    } else {
        0
    }
}

/// The family read back from a renderer id: an unknown id reads as Mandelbulb.
pub open spec fn family_for_type_id(id: u8) -> FractalFamily {
    if id < 3 {
        family_with_id(id as nat)
    } else {
        FractalFamily::Mandelbulb
    }
}

impl CompactFractal {
    /// The compact form of a snapshot with the given seed, family tag,
    /// complexity (in hundredths) and interaction count.
    pub fn new(seed: u32, fractal_type: &str, complexity: u16, interaction_count: u32) -> (r: CompactFractal)
        ensures
            r.seed == seed,
            r.fractal_type == type_id_for_name(fractal_type@),
            r.complexity == complexity,
            r.interactions == (if interaction_count < 255 { interaction_count } else { 255 }),
    {
        let fractal_type = match FractalFamily::from_name(fractal_type) {
            Some(f) => f.gpu_id(),
            None => 0,
        };
        proof {
            crate::family::lemma_family_names_distinct();
        }
        let interactions: u8 = if interaction_count < 255 { interaction_count as u8 } else { 255 };
        CompactFractal { seed, fractal_type, complexity, interactions }
    }

    /// The family that this record names.
    pub fn family(&self) -> (r: FractalFamily)
        ensures
            r == family_for_type_id(self.fractal_type),
    {
        FractalFamily::from_gpu_id(self.fractal_type)
    }
}

/// Why a share token was refused.
#[derive(Clone, Copy, Debug, PartialEq, Eq, Structural)]
pub enum ShareError {
    /// The token's expiry time has passed.
    Expired,
}

/// A token that grants access to a seed until a point in time.
#[derive(Clone, Debug)]
pub struct ShareToken {
    pub fractal_seed: u32,
    /// Expiry, in milliseconds since the epoch.
    pub expires: u64,
    pub creator: String,
}

/// The expiry of a token made at `now` for `hours` hours.
pub open spec fn expiry_of(now: u64, hours: u32) -> int {
    now as int + hours as int * MILLIS_PER_HOUR as int
}

impl ShareToken {
    /// A token for `fractal_seed`, made by `creator` at `now` (milliseconds
    /// since the epoch), valid for `duration_hours` hours.
    pub fn new(fractal_seed: u32, creator: String, now: u64, duration_hours: u32) -> (r: ShareToken)
        requires
            expiry_of(now, duration_hours) <= u64::MAX,
        ensures
            r.fractal_seed == fractal_seed,
            r.expires == expiry_of(now, duration_hours),
            r.creator@ == creator@,
    {
        let expires = now + duration_hours as u64 * MILLIS_PER_HOUR;
        ShareToken { fractal_seed, expires, creator }
    }

    /// The seed that this token grants at `now`; expired once `now` is past
    /// the expiry time.
    pub fn validate(&self, now: u64) -> (r: Result<u32, ShareError>)
        ensures
            now > self.expires ==> r == Err::<u32, ShareError>(ShareError::Expired),
            now <= self.expires ==> r == Ok::<u32, ShareError>(self.fractal_seed),
    {
        if now > self.expires {
            Err(ShareError::Expired)
        } else {
            Ok(self.fractal_seed)
        }
    }
}

/// A compact record keeps the family it was made from.
pub proof fn lemma_compact_family_round_trip(f: FractalFamily)
    ensures
        family_for_type_id(type_id_for_name(family_name(f)) as u8) == f,
{
    crate::family::lemma_family_names_distinct();
    assert(family_id(f) < 3);
}

} // verus!
