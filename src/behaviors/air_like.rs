use vstd::prelude::*;
use crate::behaviors::{Behavior, BehaviorId, AIR_LIKE_ID};

verus! {

/// A marker: other particles may displace this one as they move.
pub struct AirLike {}

impl AirLike {
    pub fn boxed() -> (b: Behavior)
        ensures
            b == Behavior::AirLike(AirLike {}),
    {
        Behavior::AirLike(AirLike {})
    }

    pub fn get_id(&self) -> (r: BehaviorId)
        ensures
            r == AIR_LIKE_ID,
    {
        AIR_LIKE_ID
    }
}

} // verus!
