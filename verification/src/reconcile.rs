//! The startup pass that compares what is configured with what is stored.
//!
//! The pass asks the ingestion router for the metadata of every configured
//! location, one after the other, and stages an insert for each location and
//! room that the store lacks. The waiting is the caller's: `Precheck` says
//! which location to ask for next, takes each reply (or its failure) and in
//! the end hands out the statements to run.

use crate::endpoint::RoomMachinesEndpoint;
use crate::idset::{distinct, lemma_distinct, IdSet};
use crate::models::{ApiLocation, ApiRoom, DbLocation, DbRoom, Record};
use vstd::prelude::*;
use vstd::string::*;

verus! {

/// The lookup of the rooms that are stored.
pub const MISSING_ROOMS_QUERY: &'static str = "SELECT room_id FROM rooms";

/// The lookup of the locations that are stored.
pub const MISSING_LOCATIONS_QUERY: &'static str = "SELECT location_id FROM locations";

/// The insert of one room: its identifier, description and label.
pub const INSERT_ROOM_QUERY: &'static str =
    "INSERT INTO rooms(room_id, description, label) VALUES ($1, $2, $3)";

/// The insert of one location: its identifier, description and label.
pub const INSERT_LOCATION_QUERY: &'static str =
    "INSERT INTO locations(location_id, description, label, timezone) VALUES ($1, $2, $3, 'UTC')";

/// A value of one column of one row.
#[derive(Debug)]
pub enum RowValues {
    Text(String),
    Null,
    /// A value of any other kind; the pass reads none of them.
    Other,
}

/// What a column value says.
pub enum Param {
    Text(Seq<char>),
    Null,
    Other,
}

impl View for RowValues {
    type V = Param;

    open spec fn view(&self) -> Param {
        match self {
            RowValues::Text(s) => Param::Text(s@),
            RowValues::Null => Param::Null,
            RowValues::Other => Param::Other,
        }
    }
}

/// One statement with the values of its placeholders.
#[derive(Debug)]
pub struct QueryAndParams {
    pub query: String,
    pub params: Vec<RowValues>,
}

/// What a statement says.
pub struct Statement {
    pub query: Seq<char>,
    pub params: Seq<Param>,
}

impl View for QueryAndParams {
    type V = Statement;

    open spec fn view(&self) -> Statement {
        Statement { query: self.query@, params: self.params@.map_values(|p: RowValues| p@) }
    }
}

/// What a list of statements says.
pub open spec fn statements(list: Seq<QueryAndParams>) -> Seq<Statement> {
    list.map_values(|q: QueryAndParams| q@)
}

/// The locations of a list of endpoints, one for each endpoint.
pub open spec fn location_ids(endpoints: Seq<RoomMachinesEndpoint>) -> Seq<Seq<char>> {
    endpoints.map_values(|e: RoomMachinesEndpoint| e.location_id@)
}

/// The rooms of a list of endpoints, one for each endpoint.
pub open spec fn room_ids(endpoints: Seq<RoomMachinesEndpoint>) -> Seq<Seq<char>> {
    endpoints.map_values(|e: RoomMachinesEndpoint| e.room_id@)
}

/// The identifiers of a list of records.
pub open spec fn record_ids(records: Seq<Record>) -> Seq<Seq<char>> {
    records.map_values(|r: Record| r.id)
}

/// What a list of staged locations says.
pub open spec fn location_records(list: Seq<DbLocation>) -> Seq<Record> {
    list.map_values(|l: DbLocation| l@)
}

/// What a list of staged rooms says.
pub open spec fn room_records(list: Seq<DbRoom>) -> Seq<Record> {
    list.map_values(|r: DbRoom| r@)
}

/// Staging one record: it is added if it is missing and not staged yet.
pub open spec fn stage(found: Seq<Record>, record: Record, missing: Set<Seq<char>>) -> Seq<
    Record,
> {
    if missing.contains(record.id) && !record_ids(found).contains(record.id) {
        found.push(record)
    } else {
        found
    }
}

/// Staging the rooms of one reply, in the order of the reply.
pub open spec fn stage_rooms(found: Seq<Record>, rooms: Seq<ApiRoom>, missing: Set<Seq<char>>)
    -> Seq<Record>
    decreases rooms.len(),
{
    if rooms.len() == 0 {
        found
    } else {
        stage(stage_rooms(found, rooms.drop_last(), missing), rooms.last().record(), missing)
    }
}

/// The records staged so far.
pub struct Staged {
    pub locations: Seq<Record>,
    pub rooms: Seq<Record>,
}

/// Staging one reply: its location if that is missing, and those of its rooms
/// that are missing.
pub open spec fn stage_reply(
    staged: Staged,
    reply: ApiLocation,
    missing_locations: Set<Seq<char>>,
    missing_rooms: Set<Seq<char>>,
) -> Staged {
    Staged {
        locations: stage(staged.locations, reply.record(), missing_locations),
        rooms: stage_rooms(staged.rooms, reply.rooms@, missing_rooms),
    }
}

/// Staging a run of replies; a request that failed (`None`) stages nothing.
pub open spec fn stage_replies(
    replies: Seq<Option<ApiLocation>>,
    missing_locations: Set<Seq<char>>,
    missing_rooms: Set<Seq<char>>,
) -> Staged
    decreases replies.len(),
{
    if replies.len() == 0 {
        Staged { locations: Seq::empty(), rooms: Seq::empty() }
    } else {
        let before = stage_replies(replies.drop_last(), missing_locations, missing_rooms);
        match replies.last() {
            Some(reply) => stage_reply(before, reply, missing_locations, missing_rooms),
            None => before,
        }
    }
}

/// The statement that inserts a location.
pub open spec fn location_insert(record: Record) -> Statement {
    Statement {
        query: INSERT_LOCATION_QUERY@,
        params: seq![
            Param::Text(record.id),
            Param::Text(record.description),
            Param::Text(record.label),
        ],
    }
}

/// The statement that inserts a room.
pub open spec fn room_insert(record: Record) -> Statement {
    Statement {
        query: INSERT_ROOM_QUERY@,
        params: seq![
            Param::Text(record.id),
            Param::Text(record.description),
            Param::Text(record.label),
        ],
    }
}

/// One statement for each staged record: the locations first, then the rooms.
pub open spec fn inserts_of(staged: Staged) -> Seq<Statement> {
    staged.locations.map_values(|r: Record| location_insert(r)) + staged.rooms.map_values(
        |r: Record| room_insert(r),
    )
}

/// The statements of a whole pass: the locations asked for are the distinct
/// configured ones; reply `i` answers request `i`; replies beyond the last
/// request are not read, and a request without a reply stages nothing.
pub open spec fn precheck_inserts(
    endpoints: Seq<RoomMachinesEndpoint>,
    stored_locations: Set<Seq<char>>,
    stored_rooms: Set<Seq<char>>,
    replies: Seq<Option<ApiLocation>>,
) -> Seq<Statement> {
    let requests = distinct(location_ids(endpoints)).len();
    let answered = if replies.len() < requests {
        replies.len()
    } else {
        requests
    };
    inserts_of(
        stage_replies(
            replies.take(answered as int),
            location_ids(endpoints).to_set().difference(stored_locations),
            room_ids(endpoints).to_set().difference(stored_rooms),
        ),
    )
}

/// The distinct locations of the configured endpoints.
pub fn configured_locations(endpoints: &Vec<RoomMachinesEndpoint>) -> (set: IdSet)
    ensures
        set.wf(),
        set.ids() == distinct(location_ids(endpoints@)),
        set@ == location_ids(endpoints@).to_set(),
{
    let mut set = IdSet::new();
    let mut i: usize = 0;
    while i < endpoints.len()
        invariant
            i <= endpoints@.len(),
            set.wf(),
            set.ids() == distinct(location_ids(endpoints@).take(i as int)),
        decreases endpoints@.len() - i,
    {
        assert(location_ids(endpoints@).take(i + 1).drop_last() == location_ids(endpoints@).take(
            i as int,
        ));
        set.insert(endpoints[i].location_id.clone());
        i = i + 1;
    }
    assert(location_ids(endpoints@).take(endpoints@.len() as int) == location_ids(endpoints@));
    proof {
        lemma_distinct(location_ids(endpoints@));
    }
    set
}

/// The distinct rooms of the configured endpoints.
pub fn configured_rooms(endpoints: &Vec<RoomMachinesEndpoint>) -> (set: IdSet)
    ensures
        set.wf(),
        set.ids() == distinct(room_ids(endpoints@)),
        set@ == room_ids(endpoints@).to_set(),
{
    let mut set = IdSet::new();
    let mut i: usize = 0;
    while i < endpoints.len()
        invariant
            i <= endpoints@.len(),
            set.wf(),
            set.ids() == distinct(room_ids(endpoints@).take(i as int)),
        decreases endpoints@.len() - i,
    {
        assert(room_ids(endpoints@).take(i + 1).drop_last() == room_ids(endpoints@).take(
            i as int,
        ));
        set.insert(endpoints[i].room_id.clone());
        i = i + 1;
    }
    assert(room_ids(endpoints@).take(endpoints@.len() as int) == room_ids(endpoints@));
    proof {
        lemma_distinct(room_ids(endpoints@));
    }
    set
}

/// Whether a location with this identifier is staged.
fn has_location(found: &Vec<DbLocation>, id: &String) -> (yes: bool)
    ensures
        yes == record_ids(location_records(found@)).contains(id@),
{
    let ghost ids = record_ids(location_records(found@));
    let mut i: usize = 0;
    while i < found.len()
        invariant
            i <= found@.len(),
            ids == record_ids(location_records(found@)),
            forall|j: int| 0 <= j < i ==> ids[j] != id@,
        decreases found@.len() - i,
    {
        if found[i].location_id == *id {
            assert(ids[i as int] == id@);
            return true;
        }
        i = i + 1;
    }
    false
}

/// Whether a room with this identifier is staged.
fn has_room(found: &Vec<DbRoom>, id: &String) -> (yes: bool)
    ensures
        yes == record_ids(room_records(found@)).contains(id@),
{
    let ghost ids = record_ids(room_records(found@));
    let mut i: usize = 0;
    while i < found.len()
        invariant
            i <= found@.len(),
            ids == record_ids(room_records(found@)),
            forall|j: int| 0 <= j < i ==> ids[j] != id@,
        decreases found@.len() - i,
    {
        if found[i].room_id == *id {
            assert(ids[i as int] == id@);
            return true;
        }
        i = i + 1;
    }
    false
}

/// Stages the location of a reply if it is missing and not staged yet.
fn stage_location_into(found: &mut Vec<DbLocation>, reply: &ApiLocation, missing: &IdSet)
    ensures
        location_records(final(found)@) == stage(
            location_records(old(found)@),
            reply.record(),
            missing@,
        ),
{
    let location = reply.to_db();
    if missing.contains(&location.location_id) && !has_location(found, &location.location_id) {
        let ghost before = location_records(found@);
        found.push(location);
        assert(location_records(found@) =~= before.push(reply.record()));
    }
}

/// Stages those rooms of a reply that are missing and not staged yet.
fn stage_rooms_into(found: &mut Vec<DbRoom>, rooms: &Vec<ApiRoom>, missing: &IdSet)
    ensures
        room_records(final(found)@) == stage_rooms(room_records(old(found)@), rooms@, missing@),
{
    let mut i: usize = 0;
    while i < rooms.len()
        invariant
            i <= rooms@.len(),
            room_records(found@) == stage_rooms(
                room_records(old(found)@),
                rooms@.take(i as int),
                missing@,
            ),
        decreases rooms@.len() - i,
    {
        assert(rooms@.take(i + 1).drop_last() == rooms@.take(i as int));
        let room = &rooms[i];
        if missing.contains(&room.room_id) && !has_room(found, &room.room_id) {
            let ghost before = room_records(found@);
            found.push(room.to_db());
            assert(room_records(found@) =~= before.push(room.record()));
        }
        i = i + 1;
    }
    assert(rooms@.take(rooms@.len() as int) == rooms@);
}

/// Why the rows of a lookup could not be read as identifiers.
#[derive(Debug, Clone, Copy, PartialEq, Eq, Structural)]
pub enum RowError {
    /// A row has no column.
    NoColumn,
    /// The first column of a row is not a text.
    NotText,
}

impl RowError {
    /// The message of the error.
    pub fn message(&self) -> (text: String)
        ensures
            text@ == match *self {
                RowError::NoColumn => "Failed to get row by index 0"@,
                RowError::NotText => "Failed to convert to text"@,
            },
    {
        match self {
            RowError::NoColumn => String::from_str("Failed to get row by index 0"),
            RowError::NotText => String::from_str("Failed to convert to text"),
        }
    }
}

/// What is wrong with a row, if anything.
pub open spec fn row_fault(row: Seq<RowValues>) -> Option<RowError> {
    if row.len() == 0 {
        Some(RowError::NoColumn)
    } else {
        match row[0] {
            RowValues::Text(_) => None,
            _ => Some(RowError::NotText),
        }
    }
}

/// The text in the first column of a row.
pub open spec fn first_text(row: Seq<RowValues>) -> Seq<char> {
    match row[0] {
        RowValues::Text(s) => s@,
        _ => Seq::empty(),
    }
}

/// The texts in the first column of each row.
pub open spec fn first_texts(rows: Seq<Vec<RowValues>>) -> Seq<Seq<char>> {
    rows.map_values(|row: Vec<RowValues>| first_text(row@))
}

/// The set of the identifiers in the first column of the rows of a lookup.
/// Fails on the first row that has no column or holds no text there.
pub fn get_query_as_hashset(rows: &Vec<Vec<RowValues>>) -> (result: Result<IdSet, RowError>)
    ensures
        match result {
            Ok(set) => {
                &&& set.wf()
                &&& forall|i: int| 0 <= i < rows@.len() ==> row_fault(#[trigger] rows@[i]@) is None
                &&& set.ids() == distinct(first_texts(rows@))
                &&& set@ == first_texts(rows@).to_set()
            },
            Err(e) => exists|i: int|
                {
                    &&& 0 <= i < rows@.len()
                    &&& row_fault(#[trigger] rows@[i]@) == Some(e)
                    &&& forall|j: int| 0 <= j < i ==> row_fault(#[trigger] rows@[j]@) is None
                },
        },
{
    let mut set = IdSet::new();
    let mut i: usize = 0;
    while i < rows.len()
        invariant
            i <= rows@.len(),
            set.wf(),
            forall|j: int| 0 <= j < i ==> row_fault(#[trigger] rows@[j]@) is None,
            set.ids() == distinct(first_texts(rows@).take(i as int)),
        decreases rows@.len() - i,
    {
        let row = &rows[i];
        if row.len() == 0 {
            assert(row_fault(rows@[i as int]@) == Some(RowError::NoColumn));
            return Err(RowError::NoColumn);
        }
        match &row[0] {
            RowValues::Text(text) => {
                assert(first_texts(rows@).take(i + 1).drop_last() == first_texts(rows@).take(
                    i as int,
                ));
                set.insert(text.clone());
            },
            _ => {
                assert(row_fault(rows@[i as int]@) == Some(RowError::NotText));
                return Err(RowError::NotText);
            },
        }
        i = i + 1;
    }
    assert(first_texts(rows@).take(rows@.len() as int) == first_texts(rows@));
    proof {
        lemma_distinct(first_texts(rows@));
    }
    Ok(set)
}

/// The startup pass, between its requests.
pub struct Precheck {
    configured: IdSet,
    missing_locations: IdSet,
    missing_rooms: IdSet,
    found_locations: Vec<DbLocation>,
    found_rooms: Vec<DbRoom>,
    cursor: usize,
}

impl Precheck {
    /// The locations to ask for, in the order of the requests.
    pub closed spec fn locations(&self) -> Seq<Seq<char>> {
        self.configured.ids()
    }

    /// The configured locations that the store lacks.
    pub closed spec fn missing_locations(&self) -> Set<Seq<char>> {
        self.missing_locations@
    }

    /// The configured rooms that the store lacks.
    pub closed spec fn missing_rooms(&self) -> Set<Seq<char>> {
        self.missing_rooms@
    }

    /// The records staged so far.
    pub closed spec fn staged(&self) -> Staged {
        Staged {
            locations: location_records(self.found_locations@),
            rooms: room_records(self.found_rooms@),
        }
    }

    /// How many requests have been answered or have failed.
    pub closed spec fn asked(&self) -> nat {
        self.cursor as nat
    }

    /// No location is asked for twice, and no more requests are counted than
    /// there are locations.
    pub closed spec fn wf(&self) -> bool {
        &&& self.configured.wf()
        &&& self.cursor <= self.configured.ids().len()
    }

    /// Starts a pass: what is missing is what is configured and not stored.
    pub fn begin(
        endpoints: &Vec<RoomMachinesEndpoint>,
        stored_locations: &IdSet,
        stored_rooms: &IdSet,
    ) -> (pass: Precheck)
        ensures
            pass.wf(),
            pass.locations() == distinct(location_ids(endpoints@)),
            pass.missing_locations() == location_ids(endpoints@).to_set().difference(
                stored_locations@,
            ),
            pass.missing_rooms() == room_ids(endpoints@).to_set().difference(stored_rooms@),
            pass.staged() == (Staged { locations: Seq::empty(), rooms: Seq::empty() }),
            pass.asked() == 0,
    {
        let configured = configured_locations(endpoints);
        let rooms = configured_rooms(endpoints);
        let missing_locations = configured.difference(stored_locations);
        let missing_rooms = rooms.difference(stored_rooms);
        let pass = Precheck {
            configured,
            missing_locations,
            missing_rooms,
            found_locations: Vec::new(),
            found_rooms: Vec::new(),
            cursor: 0,
        };
        assert(pass.staged().locations =~= Seq::<Record>::empty());
        assert(pass.staged().rooms =~= Seq::<Record>::empty());
        pass
    }

    /// The location to ask for next, or `None` once every location has had
    /// its turn.
    pub fn next_request(&self) -> (request: Option<String>)
        requires
            self.wf(),
        ensures
            match request {
                Some(id) => self.asked() < self.locations().len() && id@ == self.locations()[self.asked() as int],
                None => self.asked() == self.locations().len(),
            },
    {
        if self.cursor < self.configured.len() {
            Some(self.configured.get(self.cursor).clone())
        } else {
            None
        }
    }

    /// Takes the reply to the pending request.
    pub fn record_reply(&mut self, reply: &ApiLocation)
        requires
            old(self).wf(),
            old(self).asked() < old(self).locations().len(),
        ensures
            final(self).wf(),
            final(self).asked() == old(self).asked() + 1,
            final(self).locations() == old(self).locations(),
            final(self).missing_locations() == old(self).missing_locations(),
            final(self).missing_rooms() == old(self).missing_rooms(),
            final(self).staged() == stage_reply(
                old(self).staged(),
                *reply,
                old(self).missing_locations(),
                old(self).missing_rooms(),
            ),
    {
        stage_location_into(&mut self.found_locations, reply, &self.missing_locations);
        stage_rooms_into(&mut self.found_rooms, &reply.rooms, &self.missing_rooms);
        let total = self.configured.len();
        assert(self.cursor < total);
        self.cursor = self.cursor + 1;
    }

    /// Notes that the pending request failed: its location is skipped, and
    /// not asked for again in this pass.
    pub fn record_failure(&mut self)
        requires
            old(self).wf(),
            old(self).asked() < old(self).locations().len(),
        ensures
            final(self).wf(),
            final(self).asked() == old(self).asked() + 1,
            final(self).locations() == old(self).locations(),
            final(self).missing_locations() == old(self).missing_locations(),
            final(self).missing_rooms() == old(self).missing_rooms(),
            final(self).staged() == old(self).staged(),
    {
        let total = self.configured.len();
        assert(self.cursor < total);
        self.cursor = self.cursor + 1;
    }

    /// The statements to run: one for each staged record, the locations
    /// first.
    pub fn inserts(&self) -> (list: Vec<QueryAndParams>)
        ensures
            statements(list@) == inserts_of(self.staged()),
    {
        let mut list: Vec<QueryAndParams> = Vec::new();
        let ghost locations = self.staged().locations;
        let ghost rooms = self.staged().rooms;
        let mut i: usize = 0;
        while i < self.found_locations.len()
            invariant
                i <= self.found_locations@.len(),
                locations == location_records(self.found_locations@),
                statements(list@) == locations.take(i as int).map_values(
                    |r: Record| location_insert(r),
                ),
            decreases self.found_locations@.len() - i,
        {
            let location = &self.found_locations[i];
            let mut params: Vec<RowValues> = Vec::new();
            params.push(RowValues::Text(location.location_id.clone()));
            params.push(RowValues::Text(location.description.clone()));
            params.push(RowValues::Text(location.label.clone()));
            let statement = QueryAndParams {
                query: String::from_str(INSERT_LOCATION_QUERY),
                params,
            };
            assert(statement@.params =~= location_insert(locations[i as int]).params);
            let ghost before = statements(list@);
            list.push(statement);
            assert(statements(list@) =~= before.push(location_insert(locations[i as int])));
            assert(locations.take(i + 1).map_values(|r: Record| location_insert(r))
                =~= locations.take(i as int).map_values(|r: Record| location_insert(r)).push(
                location_insert(locations[i as int]),
            ));
            i = i + 1;
        }
        assert(locations.take(self.found_locations@.len() as int) == locations);
        let ghost head = statements(list@);
        let mut k: usize = 0;
        while k < self.found_rooms.len()
            invariant
                k <= self.found_rooms@.len(),
                rooms == room_records(self.found_rooms@),
                statements(list@) == head + rooms.take(k as int).map_values(
                    |r: Record| room_insert(r),
                ),
            decreases self.found_rooms@.len() - k,
        {
            let room = &self.found_rooms[k];
            let mut params: Vec<RowValues> = Vec::new();
            params.push(RowValues::Text(room.room_id.clone()));
            params.push(RowValues::Text(room.description.clone()));
            params.push(RowValues::Text(room.label.clone()));
            let statement = QueryAndParams { query: String::from_str(INSERT_ROOM_QUERY), params };
            assert(statement@.params =~= room_insert(rooms[k as int]).params);
            let ghost before = statements(list@);
            list.push(statement);
            assert(statements(list@) =~= before.push(room_insert(rooms[k as int])));
            assert(rooms.take(k + 1).map_values(|r: Record| room_insert(r)) =~= rooms.take(
                k as int,
            ).map_values(|r: Record| room_insert(r)).push(room_insert(rooms[k as int])));
            assert(head + rooms.take(k + 1).map_values(|r: Record| room_insert(r)) =~= (head
                + rooms.take(k as int).map_values(|r: Record| room_insert(r))).push(
                room_insert(rooms[k as int]),
            ));
            k = k + 1;
        }
        assert(rooms.take(self.found_rooms@.len() as int) == rooms);
        list
    }
}

/// A whole pass over replies that are at hand: reply `i` answers the request
/// for the `i`-th distinct configured location, `None` stands for a request
/// that failed.
pub fn db_precheck(
    endpoints: &Vec<RoomMachinesEndpoint>,
    stored_locations: &IdSet,
    stored_rooms: &IdSet,
    replies: &Vec<Option<ApiLocation>>,
) -> (list: Vec<QueryAndParams>)
    ensures
        statements(list@) == precheck_inserts(
            endpoints@,
            stored_locations@,
            stored_rooms@,
            replies@,
        ),
{
    let mut pass = Precheck::begin(endpoints, stored_locations, stored_rooms);
    let ghost missing_locations = pass.missing_locations();
    let ghost missing_rooms = pass.missing_rooms();
    let ghost requests = pass.locations();
    let mut i: usize = 0;
    loop
        invariant_except_break
            pass.wf(),
            pass.locations() == requests,
            pass.missing_locations() == missing_locations,
            pass.missing_rooms() == missing_rooms,
            pass.asked() == i,
            i <= replies@.len(),
            pass.staged() == stage_replies(replies@.take(i as int), missing_locations, missing_rooms),
        ensures
            i <= replies@.len(),
            i <= requests.len(),
            i == replies@.len() || i == requests.len(),
            pass.staged() == stage_replies(replies@.take(i as int), missing_locations, missing_rooms),
        decreases replies@.len() - i,
    {
        if i >= replies.len() {
            break ;
        }
        let request = pass.next_request();
        if request.is_none() {
            break ;
        }
        assert(replies@.take(i + 1).drop_last() == replies@.take(i as int));
        match &replies[i] {
            Some(reply) => pass.record_reply(reply),
            None => pass.record_failure(),
        }
        i = i + 1;
    }
    pass.inserts()
}

/// No identifier is staged twice, and every staged identifier is missing.
pub open spec fn staged_within(found: Seq<Record>, missing: Set<Seq<char>>) -> bool {
    &&& record_ids(found).no_duplicates()
    &&& forall|i: int| 0 <= i < found.len() ==> missing.contains(#[trigger] found[i].id)
}

proof fn lemma_stage_within(found: Seq<Record>, record: Record, missing: Set<Seq<char>>)
    requires
        staged_within(found, missing),
    ensures
        staged_within(stage(found, record, missing), missing),
{
    if missing.contains(record.id) && !record_ids(found).contains(record.id) {
        let after = found.push(record);
        assert(record_ids(after) =~= record_ids(found).push(record.id));
        assert forall|i: int, j: int|
            0 <= i < after.len() && 0 <= j < after.len() && i != j implies record_ids(after)[i]
            != record_ids(after)[j] by {
            if i < found.len() && j < found.len() {
                assert(record_ids(found)[i] != record_ids(found)[j]);
            } else if i < found.len() {
                assert(record_ids(found)[i] != record.id);
            } else {
                assert(record_ids(found)[j] != record.id);
            }
        }
    }
}

proof fn lemma_stage_rooms_within(found: Seq<Record>, rooms: Seq<ApiRoom>, missing: Set<Seq<char>>)
    requires
        staged_within(found, missing),
    ensures
        staged_within(stage_rooms(found, rooms, missing), missing),
    decreases rooms.len(),
{
    if rooms.len() > 0 {
        lemma_stage_rooms_within(found, rooms.drop_last(), missing);
        lemma_stage_within(
            stage_rooms(found, rooms.drop_last(), missing),
            rooms.last().record(),
            missing,
        );
    }
}

/// Whatever the replies are, a pass stages only what is missing, and each
/// identifier once: nothing stored and nothing unconfigured is inserted.
pub proof fn lemma_staged_within_missing(
    replies: Seq<Option<ApiLocation>>,
    missing_locations: Set<Seq<char>>,
    missing_rooms: Set<Seq<char>>,
)
    ensures
        staged_within(
            stage_replies(replies, missing_locations, missing_rooms).locations,
            missing_locations,
        ),
        staged_within(
            stage_replies(replies, missing_locations, missing_rooms).rooms,
            missing_rooms,
        ),
    decreases replies.len(),
{
    if replies.len() > 0 {
        lemma_staged_within_missing(replies.drop_last(), missing_locations, missing_rooms);
        let before = stage_replies(replies.drop_last(), missing_locations, missing_rooms);
        match replies.last() {
            Some(reply) => {
                lemma_stage_within(before.locations, reply.record(), missing_locations);
                lemma_stage_rooms_within(before.rooms, reply.rooms@, missing_rooms);
            },
            None => {},
        }
    }
}

/// Whether one of the replies that came is for the location `id`.
pub open spec fn replied_location(replies: Seq<Option<ApiLocation>>, id: Seq<char>) -> bool {
    exists|i: int|
        0 <= i < replies.len() && (#[trigger] replies[i]) is Some && replies[i]->0.record().id
            == id
}

/// Whether `rooms` holds the room `id`.
pub open spec fn lists_room(rooms: Seq<ApiRoom>, id: Seq<char>) -> bool {
    exists|j: int| 0 <= j < rooms.len() && (#[trigger] rooms[j]).room_id@ == id
}

/// Whether one of the replies that came lists the room `id`.
pub open spec fn replied_room(replies: Seq<Option<ApiLocation>>, id: Seq<char>) -> bool {
    exists|i: int|
        0 <= i < replies.len() && (#[trigger] replies[i]) is Some && lists_room(
            replies[i]->0.rooms@,
            id,
        )
}

proof fn lemma_stage_ids(
    found: Seq<Record>,
    record: Record,
    missing: Set<Seq<char>>,
    id: Seq<char>,
)
    ensures
        record_ids(stage(found, record, missing)).contains(id) <==> record_ids(found).contains(id)
            || (id == record.id && missing.contains(id)),
{
    let ids = record_ids(found);
    if missing.contains(record.id) && !ids.contains(record.id) {
        let after = record_ids(found.push(record));
        assert(after =~= ids.push(record.id));
        if ids.contains(id) {
            let i = choose|i: int| 0 <= i < ids.len() && ids[i] == id;
            assert(after[i] == id);
        }
        if id == record.id {
            assert(after[ids.len() as int] == id);
        }
        if after.contains(id) {
            let i = choose|i: int| 0 <= i < after.len() && after[i] == id;
            if i < ids.len() {
                assert(ids[i] == id);
            }
        }
    }
}

proof fn lemma_stage_rooms_ids(
    found: Seq<Record>,
    rooms: Seq<ApiRoom>,
    missing: Set<Seq<char>>,
    id: Seq<char>,
)
    ensures
        record_ids(stage_rooms(found, rooms, missing)).contains(id) <==> record_ids(
            found,
        ).contains(id) || (missing.contains(id) && lists_room(rooms, id)),
    decreases rooms.len(),
{
    if rooms.len() > 0 {
        let init = rooms.drop_last();
        lemma_stage_rooms_ids(found, init, missing, id);
        lemma_stage_ids(stage_rooms(found, init, missing), rooms.last().record(), missing, id);
        if lists_room(init, id) {
            let j = choose|j: int| 0 <= j < init.len() && (#[trigger] init[j]).room_id@ == id;
            assert(rooms[j].room_id@ == id);
        }
        if rooms.last().room_id@ == id {
            assert(rooms[rooms.len() - 1].room_id@ == id);
        }
        if lists_room(rooms, id) {
            let j = choose|j: int| 0 <= j < rooms.len() && (#[trigger] rooms[j]).room_id@ == id;
            if j < init.len() {
                assert(init[j].room_id@ == id);
            }
        }
    } else {
        assert(!lists_room(rooms, id));
    }
}

/// What a pass stages is exactly what is missing and was replied: a location
/// is staged if and only if it is missing and a reply came for it, a room if
/// and only if it is missing and a reply lists it.
pub proof fn lemma_staged_is_missing_and_replied(
    replies: Seq<Option<ApiLocation>>,
    missing_locations: Set<Seq<char>>,
    missing_rooms: Set<Seq<char>>,
    id: Seq<char>,
)
    ensures
        record_ids(
            stage_replies(replies, missing_locations, missing_rooms).locations,
        ).contains(id) <==> missing_locations.contains(id) && replied_location(replies, id),
        record_ids(stage_replies(replies, missing_locations, missing_rooms).rooms).contains(id)
            <==> missing_rooms.contains(id) && replied_room(replies, id),
    decreases replies.len(),
{
    if replies.len() > 0 {
        let init = replies.drop_last();
        lemma_staged_is_missing_and_replied(init, missing_locations, missing_rooms, id);
        let before = stage_replies(init, missing_locations, missing_rooms);
        if replied_location(init, id) {
            let i = choose|i: int|
                0 <= i < init.len() && (#[trigger] init[i]) is Some && init[i]->0.record().id
                    == id;
            assert(replies[i] is Some && replies[i]->0.record().id == id);
        }
        if replied_room(init, id) {
            let i = choose|i: int|
                0 <= i < init.len() && (#[trigger] init[i]) is Some && lists_room(
                    init[i]->0.rooms@,
                    id,
                );
            assert(replies[i] is Some && lists_room(replies[i]->0.rooms@, id));
        }
        if replied_location(replies, id) {
            let i = choose|i: int|
                0 <= i < replies.len() && (#[trigger] replies[i]) is Some
                    && replies[i]->0.record().id == id;
            if i < init.len() {
                assert(init[i] is Some && init[i]->0.record().id == id);
            }
        }
        if replied_room(replies, id) {
            let i = choose|i: int|
                0 <= i < replies.len() && (#[trigger] replies[i]) is Some && lists_room(
                    replies[i]->0.rooms@,
                    id,
                );
            if i < init.len() {
                assert(init[i] is Some && lists_room(init[i]->0.rooms@, id));
            }
        }
        match replies.last() {
            Some(reply) => {
                assert(replies[replies.len() - 1] is Some);
                lemma_stage_ids(before.locations, reply.record(), missing_locations, id);
                lemma_stage_rooms_ids(before.rooms, reply.rooms@, missing_rooms, id);
            },
            None => {
                assert(replies[replies.len() - 1] is None);
            },
        }
    } else {
        assert(record_ids(Seq::<Record>::empty()) =~= Seq::<Seq<char>>::empty());
    }
}

/// Whether `rooms` holds a room with exactly this record.
pub open spec fn lists_record(rooms: Seq<ApiRoom>, record: Record) -> bool {
    exists|j: int| 0 <= j < rooms.len() && (#[trigger] rooms[j]).record() == record
}

/// Whether one of the replies that came has exactly this record for its
/// location.
pub open spec fn replied_location_record(replies: Seq<Option<ApiLocation>>, record: Record)
    -> bool {
    exists|i: int|
        0 <= i < replies.len() && (#[trigger] replies[i]) is Some && replies[i]->0.record()
            == record
}

/// Whether one of the replies that came lists a room with exactly this record.
pub open spec fn replied_room_record(replies: Seq<Option<ApiLocation>>, record: Record) -> bool {
    exists|i: int|
        0 <= i < replies.len() && (#[trigger] replies[i]) is Some && lists_record(
            replies[i]->0.rooms@,
            record,
        )
}

proof fn lemma_stage_rooms_keeps_found(
    found: Seq<Record>,
    rooms: Seq<ApiRoom>,
    missing: Set<Seq<char>>,
)
    ensures
        found.len() <= stage_rooms(found, rooms, missing).len(),
        forall|k: int|
            0 <= k < found.len() ==> (#[trigger] stage_rooms(found, rooms, missing)[k])
                == found[k],
    decreases rooms.len(),
{
    if rooms.len() > 0 {
        lemma_stage_rooms_keeps_found(found, rooms.drop_last(), missing);
    }
}

proof fn lemma_stage_rooms_records(
    found: Seq<Record>,
    rooms: Seq<ApiRoom>,
    missing: Set<Seq<char>>,
    k: int,
)
    requires
        found.len() <= k < stage_rooms(found, rooms, missing).len(),
    ensures
        lists_record(rooms, stage_rooms(found, rooms, missing)[k]),
    decreases rooms.len(),
{
    if rooms.len() > 0 {
        let init = rooms.drop_last();
        let before = stage_rooms(found, init, missing);
        if k < before.len() {
            lemma_stage_rooms_records(found, init, missing, k);
            let j = choose|j: int|
                0 <= j < init.len() && (#[trigger] init[j]).record() == before[k];
            assert(rooms[j].record() == before[k]);
        } else {
            assert(rooms[rooms.len() - 1].record() == stage_rooms(found, rooms, missing)[k]);
        }
    }
}

/// Every staged record is the record of a reply, taken as it came: a staged
/// location has the identifier, description and label of the location of
/// some reply, a staged room those of a room that some reply lists.
pub proof fn lemma_staged_records_come_from_replies(
    replies: Seq<Option<ApiLocation>>,
    missing_locations: Set<Seq<char>>,
    missing_rooms: Set<Seq<char>>,
)
    ensures
        forall|k: int|
            0 <= k < stage_replies(replies, missing_locations, missing_rooms).locations.len()
                ==> replied_location_record(
                replies,
                #[trigger] stage_replies(replies, missing_locations, missing_rooms).locations[k],
            ),
        forall|k: int|
            0 <= k < stage_replies(replies, missing_locations, missing_rooms).rooms.len()
                ==> replied_room_record(
                replies,
                #[trigger] stage_replies(replies, missing_locations, missing_rooms).rooms[k],
            ),
    decreases replies.len(),
{
    let staged = stage_replies(replies, missing_locations, missing_rooms);
    if replies.len() > 0 {
        let init = replies.drop_last();
        let last = replies.len() - 1;
        lemma_staged_records_come_from_replies(init, missing_locations, missing_rooms);
        let before = stage_replies(init, missing_locations, missing_rooms);
        assert forall|k: int| 0 <= k < staged.locations.len() implies replied_location_record(
            replies,
            #[trigger] staged.locations[k],
        ) by {
            if k < before.locations.len() {
                assert(staged.locations[k] == before.locations[k]);
                assert(replied_location_record(init, before.locations[k]));
                let i = choose|i: int|
                    0 <= i < init.len() && (#[trigger] init[i]) is Some && init[i]->0.record()
                        == before.locations[k];
                assert(replies[i] is Some && replies[i]->0.record() == staged.locations[k]);
            } else {
                assert(replies[last] is Some && replies[last]->0.record() == staged.locations[k]);
            }
        }
        assert forall|k: int| 0 <= k < staged.rooms.len() implies replied_room_record(
            replies,
            #[trigger] staged.rooms[k],
        ) by {
            match replies.last() {
                Some(reply) => {
                    lemma_stage_rooms_keeps_found(before.rooms, reply.rooms@, missing_rooms);
                    if k >= before.rooms.len() {
                        lemma_stage_rooms_records(before.rooms, reply.rooms@, missing_rooms, k);
                        assert(replies[last] is Some && lists_record(
                            replies[last]->0.rooms@,
                            staged.rooms[k],
                        ));
                    }
                },
                None => {},
            }
            if k < before.rooms.len() {
                assert(staged.rooms[k] == before.rooms[k]);
                assert(replied_room_record(init, before.rooms[k]));
                let i = choose|i: int|
                    0 <= i < init.len() && (#[trigger] init[i]) is Some && lists_record(
                        init[i]->0.rooms@,
                        before.rooms[k],
                    );
                assert(replies[i] is Some && lists_record(replies[i]->0.rooms@, staged.rooms[k]));
            }
        }
    }
}

/// An insert carries all of its record: the identifier, the description and
/// the label, each as a text and in this order.
pub proof fn lemma_inserts_carry_the_record(record: Record)
    ensures
        location_insert(record).query == INSERT_LOCATION_QUERY@,
        location_insert(record).params == seq![
            Param::Text(record.id),
            Param::Text(record.description),
            Param::Text(record.label),
        ],
        room_insert(record).query == INSERT_ROOM_QUERY@,
        room_insert(record).params == seq![
            Param::Text(record.id),
            Param::Text(record.description),
            Param::Text(record.label),
        ],
{
}

/// Where nothing is missing, a pass inserts nothing, whatever the replies
/// are.
pub proof fn lemma_nothing_missing_nothing_inserted(
    endpoints: Seq<RoomMachinesEndpoint>,
    stored_locations: Set<Seq<char>>,
    stored_rooms: Set<Seq<char>>,
    replies: Seq<Option<ApiLocation>>,
)
    requires
        location_ids(endpoints).to_set().subset_of(stored_locations),
        room_ids(endpoints).to_set().subset_of(stored_rooms),
    ensures
        precheck_inserts(endpoints, stored_locations, stored_rooms, replies) == Seq::<
            Statement,
        >::empty(),
{
    let missing_locations = location_ids(endpoints).to_set().difference(stored_locations);
    let missing_rooms = room_ids(endpoints).to_set().difference(stored_rooms);
    let requests = distinct(location_ids(endpoints)).len();
    let answered = if replies.len() < requests {
        replies.len()
    } else {
        requests
    };
    let staged = stage_replies(replies.take(answered as int), missing_locations, missing_rooms);
    lemma_staged_within_missing(replies.take(answered as int), missing_locations, missing_rooms);
    if staged.locations.len() > 0 {
        assert(missing_locations.contains(staged.locations[0].id));
    }
    if staged.rooms.len() > 0 {
        assert(missing_rooms.contains(staged.rooms[0].id));
    }
    assert(inserts_of(staged) =~= Seq::<Statement>::empty());
}

/// A second pass inserts nothing. If the first pass staged every missing
/// location and room, and the store has since taken them all in, then the
/// next pass over the same configuration finds nothing missing and inserts
/// nothing, whatever the replies are.
pub proof fn lemma_second_pass_inserts_nothing(
    endpoints: Seq<RoomMachinesEndpoint>,
    stored_locations: Set<Seq<char>>,
    stored_rooms: Set<Seq<char>>,
    first_replies: Seq<Option<ApiLocation>>,
    second_replies: Seq<Option<ApiLocation>>,
)
    requires
        location_ids(endpoints).to_set().difference(stored_locations).subset_of(
            record_ids(
                stage_replies(
                    first_replies,
                    location_ids(endpoints).to_set().difference(stored_locations),
                    room_ids(endpoints).to_set().difference(stored_rooms),
                ).locations,
            ).to_set(),
        ),
        room_ids(endpoints).to_set().difference(stored_rooms).subset_of(
            record_ids(
                stage_replies(
                    first_replies,
                    location_ids(endpoints).to_set().difference(stored_locations),
                    room_ids(endpoints).to_set().difference(stored_rooms),
                ).rooms,
            ).to_set(),
        ),
    ensures
        ({
            let first = stage_replies(
                first_replies,
                location_ids(endpoints).to_set().difference(stored_locations),
                room_ids(endpoints).to_set().difference(stored_rooms),
            );
            precheck_inserts(
                endpoints,
                stored_locations.union(record_ids(first.locations).to_set()),
                stored_rooms.union(record_ids(first.rooms).to_set()),
                second_replies,
            ) == Seq::<Statement>::empty()
        }),
{
    let first = stage_replies(
        first_replies,
        location_ids(endpoints).to_set().difference(stored_locations),
        room_ids(endpoints).to_set().difference(stored_rooms),
    );
    lemma_nothing_missing_nothing_inserted(
        endpoints,
        stored_locations.union(record_ids(first.locations).to_set()),
        stored_rooms.union(record_ids(first.rooms).to_set()),
        second_replies,
    );
}

/// Reconciliation is idempotent. If the replies of the first pass cover
/// everything that was missing, and the store has since taken in what that
/// pass staged, then a second pass over the same configuration inserts
/// nothing, whatever its replies are.
pub proof fn lemma_reconciliation_is_idempotent(
    endpoints: Seq<RoomMachinesEndpoint>,
    stored_locations: Set<Seq<char>>,
    stored_rooms: Set<Seq<char>>,
    first_replies: Seq<Option<ApiLocation>>,
    second_replies: Seq<Option<ApiLocation>>,
)
    requires
        forall|id: Seq<char>|
            location_ids(endpoints).to_set().difference(stored_locations).contains(id)
                ==> replied_location(first_replies, id),
        forall|id: Seq<char>|
            room_ids(endpoints).to_set().difference(stored_rooms).contains(id) ==> replied_room(
                first_replies,
                id,
            ),
    ensures
        ({
            let first = stage_replies(
                first_replies,
                location_ids(endpoints).to_set().difference(stored_locations),
                room_ids(endpoints).to_set().difference(stored_rooms),
            );
            precheck_inserts(
                endpoints,
                stored_locations.union(record_ids(first.locations).to_set()),
                stored_rooms.union(record_ids(first.rooms).to_set()),
                second_replies,
            ) == Seq::<Statement>::empty()
        }),
{
    let missing_locations = location_ids(endpoints).to_set().difference(stored_locations);
    let missing_rooms = room_ids(endpoints).to_set().difference(stored_rooms);
    let first = stage_replies(first_replies, missing_locations, missing_rooms);
    assert forall|id: Seq<char>| missing_locations.contains(id) implies record_ids(
        first.locations,
    ).to_set().contains(id) by {
        lemma_staged_is_missing_and_replied(first_replies, missing_locations, missing_rooms, id);
    }
    assert forall|id: Seq<char>| missing_rooms.contains(id) implies record_ids(
        first.rooms,
    ).to_set().contains(id) by {
        lemma_staged_is_missing_and_replied(first_replies, missing_locations, missing_rooms, id);
    }
    lemma_second_pass_inserts_nothing(
        endpoints,
        stored_locations,
        stored_rooms,
        first_replies,
        second_replies,
    );
}

} // verus!
