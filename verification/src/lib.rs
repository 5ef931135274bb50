//! Wildcard-aware byte-signature search over the memory image of a loaded
//! module.
//!
//! * [`pattern`] holds the matching algorithm and the laws it obeys.
//! * [`locator`] resolves a module by name among the descriptors that the
//!   loader reported and computes its mapped extent.
//! * [`signature`] ties the two together: a pattern/mask pair that can be
//!   searched for in a byte region or in a resolved module.

pub mod locator;
pub mod pattern;
pub mod signature;
