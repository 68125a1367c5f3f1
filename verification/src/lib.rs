use vstd::prelude::*;

pub mod alignment;
pub mod bar;
pub mod frame;
pub mod laws;
pub mod model;
pub mod multi;
pub mod target;

verus! {

} // verus!
