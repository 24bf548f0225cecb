use vstd::prelude::*;

pub mod config;
pub mod device;
pub mod indicator;
pub mod policy;
pub mod selector;

verus! {

} // verus!
