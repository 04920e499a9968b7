use vstd::prelude::*;

pub mod json;
pub mod painless;
pub mod runner;
pub mod admin;
pub mod docker;
pub mod opensearch_util;

pub use painless::{DocRef, TestCase};

verus! {

/// Sum of two sizes; the caller keeps the sum within `usize`.
pub fn add(left: usize, right: usize) -> (r: usize)
    requires
        left + right <= usize::MAX,
    ensures
        r == left + right,
{
    left + right
}

} // verus!
