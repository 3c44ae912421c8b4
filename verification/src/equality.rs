//! When two values count as the same: stored records when their identifiers
//! agree, endpoints when both their location and their room do.

use crate::endpoint::RoomMachinesEndpoint;
use crate::models::{DbLocation, DbRoom};
use vstd::prelude::*;
use vstd::std_specs::cmp::PartialEqSpecImpl;

verus! {

impl PartialEq for DbLocation {
    /// Two locations are the same if they have the same identifier.
    fn eq(&self, other: &DbLocation) -> (same: bool) {
        self.location_id == other.location_id
    }
}

impl PartialEqSpecImpl for DbLocation {
    open spec fn obeys_eq_spec() -> bool {
        true
    }

    open spec fn eq_spec(&self, other: &DbLocation) -> bool {
        self.location_id@ == other.location_id@
    }
}

impl Eq for DbLocation {

}

impl PartialEq for DbRoom {
    /// Two rooms are the same if they have the same identifier.
    fn eq(&self, other: &DbRoom) -> (same: bool) {
        self.room_id == other.room_id
    }
}

impl PartialEqSpecImpl for DbRoom {
    open spec fn obeys_eq_spec() -> bool {
        true
    }

    open spec fn eq_spec(&self, other: &DbRoom) -> bool {
        self.room_id@ == other.room_id@
    }
}

impl Eq for DbRoom {

}

impl PartialEq for RoomMachinesEndpoint {
    /// Two endpoints are the same if they name the same room of the same
    /// location.
    fn eq(&self, other: &RoomMachinesEndpoint) -> (same: bool) {
        self.location_id == other.location_id && self.room_id == other.room_id
    }
}

impl PartialEqSpecImpl for RoomMachinesEndpoint {
    open spec fn obeys_eq_spec() -> bool {
        true
    }

    open spec fn eq_spec(&self, other: &RoomMachinesEndpoint) -> bool {
        self.location_id@ == other.location_id@ && self.room_id@ == other.room_id@
    }
}

impl Eq for RoomMachinesEndpoint {

}

} // verus!
