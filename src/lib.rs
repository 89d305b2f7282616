use vstd::prelude::*;

pub mod blocks;
pub mod seq;
pub mod group;
pub mod batch;

verus! {

} // verus!
