//! Bundle containers and the path index built on top of them.

pub mod bundle;
pub mod hash;
pub mod index;
pub mod paths;
