use vstd::prelude::*;

verus! {

/// The live shared-memory source. Its reader exists on one host system only; elsewhere
/// this stand-in is never detected and never starts.
#[derive(Debug, Clone, Copy, PartialEq, Eq, Default)]
pub struct IRacingAdapter {}

impl IRacingAdapter {
    pub fn new() -> (r: IRacingAdapter) {
        IRacingAdapter {  }
    }

    /// The adapter's stable key.
    pub fn key(&self) -> (r: &'static str)
        ensures
            r@ == "iracing"@,
    {
        "iracing"
    }

    /// The adapter's display name.
    pub fn name(&self) -> (r: &'static str)
        ensures
            r@ == "iRacing"@,
    {
        "iRacing"
    }

    /// Never detected here.
    pub fn detect(&self) -> (r: bool)
        ensures
            !r,
    {
        false
    }

    pub fn is_active(&self) -> (r: bool)
        ensures
            !r,
    {
        false
    }
}

} // verus!
