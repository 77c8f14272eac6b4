use vstd::prelude::*;

pub mod args;
pub mod span;
pub mod text;
pub mod times;
pub mod waiter;

verus! {

} // verus!
