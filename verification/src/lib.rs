use vstd::prelude::*;

pub mod junction;
pub mod multilocation;
pub mod asset;
pub mod location;
pub mod keys;
pub mod support;
pub mod relative_view;
pub mod order;
pub mod laws;
