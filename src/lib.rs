//! Deterministic core of a procedural fractal generator: seed derivation,
//! the seed-to-family mapping, integer field parameters, share records and
//! message bookkeeping.
pub mod counter;
pub mod family;
pub mod gesture;
pub mod messages;
pub mod params;
pub mod seed;
pub mod share;
pub mod text;
