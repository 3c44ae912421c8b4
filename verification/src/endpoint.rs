//! Endpoint identities: one (location, room) pair per monitored room.

use vstd::prelude::*;
use vstd::string::*;

verus! {

/// `{proto}://{host}/api/v1/location/{location_id}/room/{room_id}/machines`
pub open spec fn room_machines_url(
    proto: Seq<char>,
    host: Seq<char>,
    location_id: Seq<char>,
    room_id: Seq<char>,
) -> Seq<char> {
    proto + "://"@ + host + "/api/v1/location/"@ + location_id + "/room/"@ + room_id
        + "/machines"@
}

/// The API endpoint for all machines in one room of one location. Never
/// changed once made.
pub struct RoomMachinesEndpoint {
    pub location_id: String,
    pub room_id: String,
}

impl RoomMachinesEndpoint {
    /// The endpoint of room `room_id` in location `location_id`.
    pub fn new(location_id: &str, room_id: &str) -> (endpoint: RoomMachinesEndpoint)
        ensures
            endpoint.location_id@ == location_id@,
            endpoint.room_id@ == room_id@,
    {
        RoomMachinesEndpoint {
            location_id: String::from_str(location_id),
            room_id: String::from_str(room_id),
        }
    }

    /// The URL to poll, on the default port of `proto`.
    pub fn build_url(&self, proto: &str, host: &str) -> (url: String)
        ensures
            url@ == room_machines_url(proto@, host@, self.location_id@, self.room_id@),
    {
        let mut url = String::from_str(proto);
        url.append("://");
        url.append(host);
        url.append("/api/v1/location/");
        url.append(self.location_id.as_str());
        url.append("/room/");
        url.append(self.room_id.as_str());
        url.append("/machines");
        url
    }

    /// The location.
    pub fn location_id(&self) -> (id: &str)
        ensures
            id@ == self.location_id@,
    {
        self.location_id.as_str()
    }

    /// The room.
    pub fn room_id(&self) -> (id: &str)
        ensures
            id@ == self.room_id@,
    {
        self.room_id.as_str()
    }

    /// A copy with the same identifiers.
    pub fn duplicate(&self) -> (copy: RoomMachinesEndpoint)
        ensures
            copy == *self,
    {
        RoomMachinesEndpoint {
            location_id: self.location_id.clone(),
            room_id: self.room_id.clone(),
        }
    }
}

} // verus!
