//! Descriptor-assembly engine for machine-learning representations of atomic
//! structures.
//!
//! The crate has three parts: a piecewise cubic Hermite spline layer that
//! replaces an expensive radial basis function with a cheap, accuracy-bounded
//! approximation; an environment index builder that enumerates, in a
//! deterministic order, which (structure, atom, neighbor, spatial direction)
//! combinations contribute to the output tensor and its gradients; and a
//! species key builder that produces the ordered set of chemical species
//! combinations partitioning the output into per-key blocks.

pub mod errors;
pub mod indexes;
pub mod sorted;
pub mod system;
pub mod environments;
pub mod keys;
pub mod spline;
pub mod radial;
pub mod selection;
