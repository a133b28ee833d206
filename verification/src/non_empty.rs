//! A reduced non-empty container pair with the same construction discipline
//! as the top-level [`crate::slice`] and [`crate::vec`] modules, kept for
//! callers that need only the core accessors.

pub mod slice;
pub mod vec;
