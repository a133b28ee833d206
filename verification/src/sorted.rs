//! Sequences kept in strict ascending order with no duplicate elements.

pub mod slice;
pub mod vec;
