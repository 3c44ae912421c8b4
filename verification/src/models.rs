//! The records of the remote API and of the store.

use vstd::prelude::*;

verus! {

/// The lower-case hexadecimal digit of a value below 16.
pub open spec fn hex_char(n: int) -> char {
    if n < 10 {
        (48 + n) as char
    } else {
        (87 + n) as char
    }
}

/// The usual text of a 128-bit identifier: 32 lower-case hexadecimal digits,
/// the high half of each byte first, in groups of 8, 4, 4, 4 and 12 with a
/// hyphen between them.
pub open spec fn hyphenated(bytes: Seq<u8>) -> Seq<char> {
    Seq::new(
        36,
        |i: int|
            if i == 8 || i == 13 || i == 18 || i == 23 {
                '-'
            } else {
                let j = if i < 8 {
                    i
                } else if i < 13 {
                    i - 1
                } else if i < 18 {
                    i - 2
                } else if i < 23 {
                    i - 3
                } else {
                    i - 4
                };
                let byte = bytes[j / 2] as int;
                hex_char(
                    if j % 2 == 0 {
                        byte / 16
                    } else {
                        byte % 16
                    },
                )
            },
    )
}

/// Calls `Uuid::from_bytes` and the `Display` of `uuid::Uuid`. The contract
/// claims that the text is the hyphenated lower-case form of the 16 bytes.
#[verifier::external_body]
fn uuid_to_string(bytes: &[u8; 16]) -> (text: String)
    ensures
        text@ == hyphenated(bytes@),
{
    uuid::Uuid::from_bytes(*bytes).to_string()
}

/// The text by which a 128-bit identifier is written in configuration and in
/// the store.
pub fn id_text(bytes: &[u8; 16]) -> (text: String)
    ensures
        text@ == hyphenated(bytes@),
        text@.len() == 36,
{
    uuid_to_string(bytes)
}

/// What kind of machine it is.
#[derive(Debug, Clone, Copy, PartialEq, Eq, Structural)]
pub enum MachineType {
    Washer,
    Dryer,
}

/// What a machine is doing.
#[derive(Debug, Clone, Copy, PartialEq, Eq, Structural)]
pub enum ModeType {
    PressStart,
    Running,
    Idle,
    Unknown,
}

/// One machine as the remote API reports it.
#[derive(Debug)]
pub struct Machine {
    pub opaque_id: [u8; 16],
    pub location_id: [u8; 16],
    pub room_id: String,
    pub nfc_id: [u8; 16],
    pub qr_code_id: String,
    pub license_plate: String,
    pub sticker_number: i16,
    pub machine_type: MachineType,
    pub door_closed: bool,
    pub available: bool,
    pub not_available_reason: Option<String>,
    pub mode: ModeType,
    pub time_remaining: Option<i16>,
    pub settings: MachineSettings,
}

/// The programme that a machine is set to.
#[derive(Debug)]
pub struct MachineSettings {
    pub soil: Option<String>,
    pub cycle: Option<String>,
    pub washer_temp: Option<String>,
    pub dryer_temp: Option<String>,
}

/// One location with its rooms, as the remote API reports it.
#[derive(Debug)]
pub struct ApiLocation {
    pub location_id: [u8; 16],
    pub description: String,
    pub label: String,
    pub rooms: Vec<ApiRoom>,
}

/// One room, as the remote API reports it.
#[derive(Debug)]
pub struct ApiRoom {
    pub location_id: [u8; 16],
    pub room_id: String,
    pub description: String,
    pub label: String,
}

/// A location as it is inserted into the store.
#[derive(Debug)]
pub struct DbLocation {
    pub location_id: String,
    pub description: String,
    pub label: String,
}

/// A room as it is inserted into the store.
#[derive(Debug)]
pub struct DbRoom {
    pub room_id: String,
    pub description: String,
    pub label: String,
}

/// What a stored record says: its identifier and two texts.
pub struct Record {
    pub id: Seq<char>,
    pub description: Seq<char>,
    pub label: Seq<char>,
}

impl View for DbLocation {
    type V = Record;

    open spec fn view(&self) -> Record {
        Record { id: self.location_id@, description: self.description@, label: self.label@ }
    }
}

impl View for DbRoom {
    type V = Record;

    open spec fn view(&self) -> Record {
        Record { id: self.room_id@, description: self.description@, label: self.label@ }
    }
}

impl ApiLocation {
    /// The record by which this location is stored.
    pub open spec fn record(&self) -> Record {
        Record {
            id: hyphenated(self.location_id@),
            description: self.description@,
            label: self.label@,
        }
    }

    /// The record by which this location is stored.
    pub fn to_db(&self) -> (location: DbLocation)
        ensures
            location@ == self.record(),
    {
        DbLocation {
            location_id: id_text(&self.location_id),
            description: self.description.clone(),
            label: self.label.clone(),
        }
    }
}

impl ApiRoom {
    /// The record by which this room is stored.
    pub open spec fn record(&self) -> Record {
        Record { id: self.room_id@, description: self.description@, label: self.label@ }
    }

    /// The record by which this room is stored.
    pub fn to_db(&self) -> (room: DbRoom)
        ensures
            room@ == self.record(),
    {
        DbRoom {
            room_id: self.room_id.clone(),
            description: self.description.clone(),
            label: self.label.clone(),
        }
    }
}

} // verus!
