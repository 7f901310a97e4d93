use vstd::prelude::*;

verus! {

/// Sentinel component for a coordinate that designates "no selection".
pub const UNDEFINED_POSITION: i8 = -1;

} // verus!
