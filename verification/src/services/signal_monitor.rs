use vstd::prelude::*;

verus! {

/// Signal quality grade, from best to none.
#[derive(Clone, Copy, Debug, PartialEq, Eq)]
pub enum QualityLevel {
    Excellent,
    Good,
    Fair,
    Poor,
    NoSignal,
}

} // verus!
