use vstd::prelude::*;

pub mod aggregator;
pub mod exchanges;
pub mod table;
pub mod text;

verus! {

} // verus!
