use vstd::prelude::*;
use crate::behaviors::{Behavior, BehaviorId, IGNITER_ID};

verus! {

/// A marker: flammable particles near this one may catch fire.
pub struct Igniter {}

impl Igniter {
    pub fn boxed() -> (b: Behavior)
        ensures
            b == Behavior::Igniter(Igniter {}),
    {
        Behavior::Igniter(Igniter {})
    }

    pub fn get_id(&self) -> (r: BehaviorId)
        ensures
            r == IGNITER_ID,
    {
        IGNITER_ID
    }
}

} // verus!
