//! Documentation model for a protobuf compiler plugin: resolves a set of
//! compiled descriptors into message and enum nodes grouped by package,
//! builds services and methods with resolved input and output types, and
//! collects for each method the closure of the types it refers to.
use vstd::prelude::*;

pub mod closure;
pub mod comments;
pub mod descriptor;
pub mod error;
pub mod filters;
pub mod index;
pub mod names;
pub mod options;
pub mod order;
pub mod proto;
pub mod render;
pub mod services;

verus! {

/// Converts a descriptor position to the `i32` used in comment paths.
pub fn as_i32(idx: usize) -> (r: i32)
    ensures
        r == #[verifier::truncate] ((idx as int) as i32),
        idx <= i32::MAX ==> r as int == idx as int,
{
    idx as i32
}

} // verus!
