use vstd::prelude::*;

pub mod ibt;
pub mod iracing;
pub mod mask;
pub mod manager;
pub mod model;
pub mod normalize;
pub mod projection;
pub mod replay;
pub mod session_info;
pub mod sinks;
pub mod text;

verus! {

} // verus!
