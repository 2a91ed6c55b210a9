use vstd::prelude::*;

pub mod dedup;
pub mod numbers;
pub mod mtl_parse;
pub mod obj_parse;
pub mod registry;
pub mod decimal;
pub mod text;

verus! {

} // verus!
