//! Lazy pull-based sequences and an adapter that pairs each element of such a
//! sequence with a flag telling whether it is the final element.

pub mod adapter;
pub mod providers;
pub mod source;
