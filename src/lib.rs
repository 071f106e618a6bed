//! Quasi-metric spaces, geodesic paths and interpolation between points,
//! together with the rules that decide which implementations a point type
//! is given from its configuration attribute.
//!
//! The library provides the traits, their rules for pairs and two-element
//! arrays, and the distance rule. It has no implementations for the
//! floating-point types and no blanket `Merge` for types with `+` and `*`:
//! those compute in floating point or through the operators of an arbitrary
//! type, which its proofs cannot speak of. Point types get their
//! implementations from the generator in `generate`.
pub mod generate;
pub mod geodesic;
pub mod settings;
pub mod topology;

pub use geodesic::{Connected, Geodesic, Length, QuasiMetric};
