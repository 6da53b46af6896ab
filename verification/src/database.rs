//! What the database is asked, and what it replies.

use crate::event::{EventModel, StatsEvent};
use crate::tickrate::Rate;
use std::collections::HashMap;
use vstd::hash_map::StringHashMap;
use vstd::prelude::*;

verus! {

/// The database identifiers of servers and map sessions that are known.
pub struct WriterCache {
    server_ids: StringHashMap<u64>,
    session_ids: HashMap<u64, StringHashMap<u64>>,
}

/// What a cache knows: servers by their keys, and sessions by their server and
/// their own keys.
#[verifier::ext_equal]
pub struct CacheModel {
    pub servers: Map<Seq<char>, u64>,
    pub sessions: Map<(u64, Seq<char>), u64>,
}

impl View for WriterCache {
    type V = CacheModel;

    closed spec fn view(&self) -> CacheModel {
        CacheModel {
            servers: self.server_ids@,
            sessions: Map::new(
                |k: (u64, Seq<char>)|
                    self.session_ids@.contains_key(k.0) && self.session_ids@[k.0]@.contains_key(
                        k.1,
                    ),
                |k: (u64, Seq<char>)| self.session_ids@[k.0]@[k.1],
            ),
        }
    }
}

/// Nothing is known.
pub open spec fn empty_cache() -> CacheModel {
    CacheModel { servers: Map::empty(), sessions: Map::empty() }
}

impl WriterCache {
    /// A cache that knows nothing.
    pub fn new() -> (cache: Self)
        ensures
            cache@ == empty_cache(),
    {
        let cache = WriterCache { server_ids: StringHashMap::new(), session_ids: HashMap::new() };
        assert(cache@.sessions =~= Map::empty());
        cache
    }

    /// Forgets everything.
    pub fn clear(&mut self)
        ensures
            final(self)@ == empty_cache(),
    {
        self.server_ids.clear();
        self.session_ids.clear();
        assert(self@.sessions =~= Map::empty());
    }

    /// The identifier of a server, where it is known.
    pub fn server(&self, server_key: &str) -> (r: Option<u64>)
        ensures
            r == if self@.servers.contains_key(server_key@) {
                Some(self@.servers[server_key@])
            } else {
                None
            },
    {
        match self.server_ids.get(server_key) {
            Some(id) => Some(*id),
            None => None,
        }
    }

    /// The identifier of a session, where it is known.
    pub fn session(&self, server_id: u64, session_key: &str) -> (r: Option<u64>)
        ensures
            r == if self@.sessions.contains_key((server_id, session_key@)) {
                Some(self@.sessions[(server_id, session_key@)])
            } else {
                None
            },
    {
        match self.session_ids.get(&server_id) {
            Some(sessions) => match sessions.get(session_key) {
                Some(id) => Some(*id),
                None => None,
            },
            None => None,
        }
    }

    /// Keeps the identifier of a server.
    pub fn keep_server(&mut self, server_key: &str, id: u64)
        ensures
            final(self)@ == (CacheModel {
                servers: old(self)@.servers.insert(server_key@, id),
                ..old(self)@
            }),
    {
        self.server_ids.insert(server_key.to_owned(), id);
        assert(self@.sessions =~= old(self)@.sessions);
    }

    /// Keeps the identifier of a session.
    pub fn keep_session(&mut self, server_id: u64, session_key: &str, id: u64)
        ensures
            final(self)@ == (CacheModel {
                sessions: old(self)@.sessions.insert((server_id, session_key@), id),
                ..old(self)@
            }),
    {
        let mut sessions = match self.session_ids.remove(&server_id) {
            Some(sessions) => sessions,
            None => StringHashMap::new(),
        };
        sessions.insert(session_key.to_owned(), id);
        self.session_ids.insert(server_id, sessions);
        assert(self@.sessions =~= old(self)@.sessions.insert((server_id, session_key@), id));
    }
}

/// A row of the table of events.
#[derive(Debug)]
pub struct EventRow {
    pub event_id: String,
    pub session_id: u64,
    pub source_plugin: String,
    pub event_name: String,
    pub message: String,
    pub occurred_at: i64,
    pub server_tick: i64,
    pub tick_interval: Rate,
    pub expected_tickrate: Rate,
    pub observed_tickrate: Rate,
}

/// What a row of the table of events says.
#[verifier::ext_equal]
pub struct EventRowModel {
    pub event_id: Seq<char>,
    pub session_id: u64,
    pub source_plugin: Seq<char>,
    pub event_name: Seq<char>,
    pub message: Seq<char>,
    pub occurred_at: i64,
    pub server_tick: i64,
    pub tick_interval: Rate,
    pub expected_tickrate: Rate,
    pub observed_tickrate: Rate,
}

impl View for EventRow {
    type V = EventRowModel;

    open spec fn view(&self) -> EventRowModel {
        EventRowModel {
            event_id: self.event_id@,
            session_id: self.session_id,
            source_plugin: self.source_plugin@,
            event_name: self.event_name@,
            message: self.message@,
            occurred_at: self.occurred_at,
            server_tick: self.server_tick,
            tick_interval: self.tick_interval,
            expected_tickrate: self.expected_tickrate,
            observed_tickrate: self.observed_tickrate,
        }
    }
}

/// A row of the table of tick samples.
#[derive(Debug)]
pub struct TickRow {
    pub event_id: String,
    pub session_id: u64,
    pub sampled_at: i64,
    pub server_tick: i64,
    pub tick_interval: Rate,
    pub expected_tickrate: Rate,
    pub observed_tickrate: Rate,
}

/// What a row of the table of tick samples says.
#[verifier::ext_equal]
pub struct TickRowModel {
    pub event_id: Seq<char>,
    pub session_id: u64,
    pub sampled_at: i64,
    pub server_tick: i64,
    pub tick_interval: Rate,
    pub expected_tickrate: Rate,
    pub observed_tickrate: Rate,
}

impl View for TickRow {
    type V = TickRowModel;

    open spec fn view(&self) -> TickRowModel {
        TickRowModel {
            event_id: self.event_id@,
            session_id: self.session_id,
            sampled_at: self.sampled_at,
            server_tick: self.server_tick,
            tick_interval: self.tick_interval,
            expected_tickrate: self.expected_tickrate,
            observed_tickrate: self.observed_tickrate,
        }
    }
}

/// What a sequence of rows of events says.
pub open spec fn event_row_models(rows: Seq<EventRow>) -> Seq<EventRowModel> {
    rows.map_values(|r: EventRow| r@)
}

/// What a sequence of rows of tick samples says.
pub open spec fn tick_row_models(rows: Seq<TickRow>) -> Seq<TickRowModel> {
    rows.map_values(|r: TickRow| r@)
}

/// What the database is asked to do next.
#[derive(Debug)]
pub enum DbRequest {
    /// Insert or update a server.
    UpsertServer { server_key: String, hostname: String, host_port: i32, now: i64 },
    /// Read the identifier of the row that was inserted or updated last.
    LastInsertId,
    /// Insert or update a map session.
    UpsertSession {
        session_key: String,
        server_id: u64,
        host_port: i32,
        map_name: String,
        gamemode: String,
        started_at: i64,
        start_tick: i64,
        tick_interval: Rate,
        expected_tickrate: Rate,
        now: i64,
    },
    /// Read the identifiers and start times of the server's other sessions that
    /// have not ended.
    StaleSessions { server_id: u64, session_id: u64 },
    /// Read the time of the last event of a session.
    LastEventAt { session_id: u64 },
    /// Read the time of the last tick sample of a session.
    LastTickAt { session_id: u64 },
    /// Read the average, the minimum and the number of a session's samples.
    TickAggregate { session_id: u64 },
    /// End a session whose own end was never sent.
    CloseSession {
        session_id: u64,
        ended_at: i64,
        average: Option<Rate>,
        minimum: Option<Rate>,
        samples: u64,
    },
    /// Store the start of a session.
    StartSession {
        session_id: u64,
        map_name: String,
        gamemode: String,
        started_at: i64,
        start_tick: i64,
        tick_interval: Rate,
        expected_tickrate: Rate,
        now: i64,
    },
    /// Store the end of a session.
    EndSession {
        session_id: u64,
        ended_at: i64,
        end_reason: String,
        end_inferred: bool,
        end_tick: i64,
        average_tickrate: Rate,
        minimum_tickrate: Rate,
        sample_count: i32,
    },
    /// Store a server's latest sign of life.
    TouchServer { server_id: u64, hostname: String, host_port: i32, last_seen_at: i64 },
    /// Insert rows of the table of events.
    InsertEvents { events: Vec<EventRow> },
    /// Insert rows of the table of tick samples.
    InsertTicks { ticks: Vec<TickRow> },
    /// Commit the transaction.
    Commit,
    /// Nothing: the batch is written.
    Finished,
}

/// What a request says.
pub enum RequestModel {
    UpsertServer { server_key: Seq<char>, hostname: Seq<char>, host_port: i32, now: i64 },
    LastInsertId,
    UpsertSession {
        session_key: Seq<char>,
        server_id: u64,
        host_port: i32,
        map_name: Seq<char>,
        gamemode: Seq<char>,
        started_at: i64,
        start_tick: i64,
        tick_interval: Rate,
        expected_tickrate: Rate,
        now: i64,
    },
    StaleSessions { server_id: u64, session_id: u64 },
    LastEventAt { session_id: u64 },
    LastTickAt { session_id: u64 },
    TickAggregate { session_id: u64 },
    CloseSession {
        session_id: u64,
        ended_at: i64,
        average: Option<Rate>,
        minimum: Option<Rate>,
        samples: u64,
    },
    StartSession {
        session_id: u64,
        map_name: Seq<char>,
        gamemode: Seq<char>,
        started_at: i64,
        start_tick: i64,
        tick_interval: Rate,
        expected_tickrate: Rate,
        now: i64,
    },
    EndSession {
        session_id: u64,
        ended_at: i64,
        end_reason: Seq<char>,
        end_inferred: bool,
        end_tick: i64,
        average_tickrate: Rate,
        minimum_tickrate: Rate,
        sample_count: i32,
    },
    TouchServer { server_id: u64, hostname: Seq<char>, host_port: i32, last_seen_at: i64 },
    InsertEvents { events: Seq<EventRowModel> },
    InsertTicks { ticks: Seq<TickRowModel> },
    Commit,
    Finished,
}

impl View for DbRequest {
    type V = RequestModel;

    open spec fn view(&self) -> RequestModel {
        match self {
            DbRequest::UpsertServer { server_key, hostname, host_port, now } =>
                RequestModel::UpsertServer {
                server_key: server_key@,
                hostname: hostname@,
                host_port: *host_port,
                now: *now,
            },
            DbRequest::LastInsertId => RequestModel::LastInsertId,
            DbRequest::UpsertSession {
                session_key,
                server_id,
                host_port,
                map_name,
                gamemode,
                started_at,
                start_tick,
                tick_interval,
                expected_tickrate,
                now,
            } => RequestModel::UpsertSession {
                session_key: session_key@,
                server_id: *server_id,
                host_port: *host_port,
                map_name: map_name@,
                gamemode: gamemode@,
                started_at: *started_at,
                start_tick: *start_tick,
                tick_interval: *tick_interval,
                expected_tickrate: *expected_tickrate,
                now: *now,
            },
            DbRequest::StaleSessions { server_id, session_id } => RequestModel::StaleSessions {
                server_id: *server_id,
                session_id: *session_id,
            },
            DbRequest::LastEventAt { session_id } => RequestModel::LastEventAt {
                session_id: *session_id,
            },
            DbRequest::LastTickAt { session_id } => RequestModel::LastTickAt {
                session_id: *session_id,
            },
            DbRequest::TickAggregate { session_id } => RequestModel::TickAggregate {
                session_id: *session_id,
            },
            DbRequest::CloseSession {
                session_id,
                ended_at,
                average,
                minimum,
                samples,
            } => RequestModel::CloseSession {
                session_id: *session_id,
                ended_at: *ended_at,
                average: *average,
                minimum: *minimum,
                samples: *samples,
            },
            DbRequest::StartSession {
                session_id,
                map_name,
                gamemode,
                started_at,
                start_tick,
                tick_interval,
                expected_tickrate,
                now,
            } => RequestModel::StartSession {
                session_id: *session_id,
                map_name: map_name@,
                gamemode: gamemode@,
                started_at: *started_at,
                start_tick: *start_tick,
                tick_interval: *tick_interval,
                expected_tickrate: *expected_tickrate,
                now: *now,
            },
            DbRequest::EndSession {
                session_id,
                ended_at,
                end_reason,
                end_inferred,
                end_tick,
                average_tickrate,
                minimum_tickrate,
                sample_count,
            } => RequestModel::EndSession {
                session_id: *session_id,
                ended_at: *ended_at,
                end_reason: end_reason@,
                end_inferred: *end_inferred,
                end_tick: *end_tick,
                average_tickrate: *average_tickrate,
                minimum_tickrate: *minimum_tickrate,
                sample_count: *sample_count,
            },
            DbRequest::TouchServer { server_id, hostname, host_port, last_seen_at } =>
                RequestModel::TouchServer {
                server_id: *server_id,
                hostname: hostname@,
                host_port: *host_port,
                last_seen_at: *last_seen_at,
            },
            DbRequest::InsertEvents { events } => RequestModel::InsertEvents {
                events: event_row_models(events@),
            },
            DbRequest::InsertTicks { ticks } => RequestModel::InsertTicks {
                ticks: tick_row_models(ticks@),
            },
            DbRequest::Commit => RequestModel::Commit,
            DbRequest::Finished => RequestModel::Finished,
        }
    }
}

/// What the database replied.
#[derive(Debug)]
pub enum DbReply {
    /// The statement was executed.
    Done,
    /// An identifier was read, or no row.
    Id(Option<u64>),
    /// Sessions were read: their identifiers and start times.
    Sessions(Vec<(u64, i64)>),
    /// A time was read, or no row.
    Time(Option<i64>),
    /// An average, a minimum and a number were read, or no row.
    Aggregate(Option<(Option<Rate>, Option<Rate>, u64)>),
}

/// What a reply says.
pub enum ReplyModel {
    Done,
    Id(Option<u64>),
    Sessions(Seq<(u64, i64)>),
    Time(Option<i64>),
    Aggregate(Option<(Option<Rate>, Option<Rate>, u64)>),
}

impl View for DbReply {
    type V = ReplyModel;

    open spec fn view(&self) -> ReplyModel {
        match self {
            DbReply::Done => ReplyModel::Done,
            DbReply::Id(id) => ReplyModel::Id(*id),
            DbReply::Sessions(list) => ReplyModel::Sessions(list@),
            DbReply::Time(at) => ReplyModel::Time(*at),
            DbReply::Aggregate(a) => ReplyModel::Aggregate(*a),
        }
    }
}

/// The identifier that a reply gives, zero where it gives none.
pub open spec fn reply_id(reply: ReplyModel) -> u64 {
    match reply {
        ReplyModel::Id(Some(id)) => id,
        _ => 0,
    }
}

/// The sessions that a reply gives.
pub open spec fn reply_sessions(reply: ReplyModel) -> Seq<(u64, i64)> {
    match reply {
        ReplyModel::Sessions(list) => list,
        _ => Seq::empty(),
    }
}

/// The time that a reply gives.
pub open spec fn reply_time(reply: ReplyModel) -> Option<i64> {
    match reply {
        ReplyModel::Time(at) => at,
        _ => None,
    }
}

/// The aggregate that a reply gives, nothing of zero samples where it gives
/// none.
pub open spec fn reply_aggregate(reply: ReplyModel) -> (Option<Rate>, Option<Rate>, u64) {
    match reply {
        ReplyModel::Aggregate(Some(a)) => a,
        _ => (None, None, 0),
    }
}

impl DbReply {
    /// The identifier that this reply gives, zero where it gives none.
    pub fn id(&self) -> (r: u64)
        ensures
            r == reply_id(self@),
    {
        match self {
            DbReply::Id(Some(id)) => *id,
            _ => 0,
        }
    }

    /// The sessions that this reply gives.
    pub fn sessions(self) -> (r: Vec<(u64, i64)>)
        ensures
            r@ == reply_sessions(self@),
    {
        match self {
            DbReply::Sessions(list) => list,
            _ => Vec::new(),
        }
    }

    /// The time that this reply gives.
    pub fn time(&self) -> (r: Option<i64>)
        ensures
            r == reply_time(self@),
    {
        match self {
            DbReply::Time(at) => *at,
            _ => None,
        }
    }

    /// The aggregate that this reply gives, nothing of zero samples where it
    /// gives none.
    pub fn aggregate(&self) -> (r: (Option<Rate>, Option<Rate>, u64))
        ensures
            r == reply_aggregate(self@),
    {
        match self {
            DbReply::Aggregate(Some(a)) => *a,
            _ => (None, None, 0),
        }
    }
}

/// The time at which an event's session started.
pub open spec fn session_start(e: EventModel) -> i64 {
    if e.session_started_at > 0 {
        e.session_started_at
    } else {
        e.occurred_at
    }
}

/// The time at which an event's session ended.
pub open spec fn session_end(e: EventModel) -> i64 {
    if e.session_ended_at > 0 {
        e.session_ended_at
    } else {
        e.occurred_at
    }
}

/// The identifier of an event, empty where it has none.
pub open spec fn event_id_text(e: EventModel) -> Seq<char> {
    match e.event_id {
        Some(id) => id,
        None => Seq::empty(),
    }
}

/// The row of an event.
pub open spec fn event_row(e: EventModel, session_id: u64) -> EventRowModel {
    EventRowModel {
        event_id: event_id_text(e),
        session_id,
        source_plugin: e.source_plugin,
        event_name: e.event_name,
        message: e.message,
        occurred_at: e.occurred_at,
        server_tick: e.server_tick,
        tick_interval: e.tick_interval_seconds,
        expected_tickrate: e.expected_tickrate,
        observed_tickrate: e.observed_tickrate,
    }
}

/// The row of a tick sample.
pub open spec fn tick_row(e: EventModel, session_id: u64) -> TickRowModel {
    TickRowModel {
        event_id: event_id_text(e),
        session_id,
        sampled_at: e.occurred_at,
        server_tick: e.server_tick,
        tick_interval: e.tick_interval_seconds,
        expected_tickrate: e.expected_tickrate,
        observed_tickrate: e.observed_tickrate,
    }
}

/// The request that stores the server of an event.
pub open spec fn upsert_server(e: EventModel) -> RequestModel {
    RequestModel::UpsertServer {
        server_key: e.server_id,
        hostname: e.server_name,
        host_port: e.host_port,
        now: e.occurred_at,
    }
}

/// The request that stores the session of an event.
pub open spec fn upsert_session(e: EventModel, server_id: u64) -> RequestModel {
    RequestModel::UpsertSession {
        session_key: e.map_session_id,
        server_id,
        host_port: e.host_port,
        map_name: e.map_name,
        gamemode: e.gamemode,
        started_at: session_start(e),
        start_tick: e.server_tick,
        tick_interval: e.tick_interval_seconds,
        expected_tickrate: e.expected_tickrate,
        now: e.occurred_at,
    }
}

/// The request that stores the start of a session.
pub open spec fn start_session_request(e: EventModel, session_id: u64) -> RequestModel {
    RequestModel::StartSession {
        session_id,
        map_name: e.map_name,
        gamemode: e.gamemode,
        started_at: session_start(e),
        start_tick: e.server_tick,
        tick_interval: e.tick_interval_seconds,
        expected_tickrate: e.expected_tickrate,
        now: e.occurred_at,
    }
}

/// The request that stores the end of a session.
pub open spec fn end_session_request(
    e: EventModel,
    session_id: u64,
    inferred: bool,
) -> RequestModel {
    RequestModel::EndSession {
        session_id,
        ended_at: session_end(e),
        end_reason: e.end_reason,
        end_inferred: inferred,
        end_tick: e.server_tick,
        average_tickrate: e.session_average_tickrate,
        minimum_tickrate: e.session_minimum_tickrate,
        sample_count: e.session_sample_count,
    }
}

/// The time at which the session of `event` started.
fn session_start_of(event: &StatsEvent) -> (r: i64)
    ensures
        r == session_start(event@),
{
    if event.session_started_at > 0 {
        event.session_started_at
    } else {
        event.occurred_at
    }
}

/// A copy of the identifier of `event`, empty where it has none.
fn event_id_of(event: &StatsEvent) -> (r: String)
    ensures
        r@ == event_id_text(event@),
{
    match &event.event_id {
        Some(id) => id.clone(),
        None => {
            let id = String::new();
            assert(id@ == Seq::<char>::empty());
            id
        },
    }
}

impl EventRow {
    /// The row of `event` in the session `session_id`.
    pub fn of(event: &StatsEvent, session_id: u64) -> (row: Self)
        ensures
            row@ == event_row(event@, session_id),
    {
        EventRow {
            event_id: event_id_of(event),
            session_id,
            source_plugin: event.source_plugin.clone(),
            event_name: event.event_name.clone(),
            message: event.message.clone(),
            occurred_at: event.occurred_at,
            server_tick: event.server_tick,
            tick_interval: event.tick_interval_seconds,
            expected_tickrate: event.expected_tickrate,
            observed_tickrate: event.observed_tickrate,
        }
    }
}

impl TickRow {
    /// The row of the tick sample `event` in the session `session_id`.
    pub fn of(event: &StatsEvent, session_id: u64) -> (row: Self)
        ensures
            row@ == tick_row(event@, session_id),
    {
        TickRow {
            event_id: event_id_of(event),
            session_id,
            sampled_at: event.occurred_at,
            server_tick: event.server_tick,
            tick_interval: event.tick_interval_seconds,
            expected_tickrate: event.expected_tickrate,
            observed_tickrate: event.observed_tickrate,
        }
    }
}

/// Stores the server of `event`, where the cache does not know it: gives its
/// identifier, or the request that stores it.
pub fn ensure_server(cache: &WriterCache, event: &StatsEvent) -> (r: Result<u64, DbRequest>)
    ensures
        match r {
            Ok(id) => cache@.servers.contains_key(event@.server_id)
                && id == cache@.servers[event@.server_id],
            Err(request) => !cache@.servers.contains_key(event@.server_id) && request@
                == upsert_server(event@),
        },
{
    match cache.server(&event.server_id) {
        Some(id) => Ok(id),
        None => Err(
            DbRequest::UpsertServer {
                server_key: event.server_id.clone(),
                hostname: event.server_name.clone(),
                host_port: event.host_port,
                now: event.occurred_at,
            },
        ),
    }
}

/// Stores the session of `event`, where the cache does not know it: gives its
/// identifier, or the request that stores it.
pub fn ensure_session(cache: &WriterCache, server_id: u64, event: &StatsEvent) -> (r: Result<
    u64,
    DbRequest,
>)
    ensures
        match r {
            Ok(id) => cache@.sessions.contains_key((server_id, event@.map_session_id))
                && id == cache@.sessions[(server_id, event@.map_session_id)],
            Err(request) => !cache@.sessions.contains_key((server_id, event@.map_session_id))
                && request@ == upsert_session(event@, server_id),
        },
{
    match cache.session(server_id, &event.map_session_id) {
        Some(id) => Ok(id),
        None => Err(
            DbRequest::UpsertSession {
                session_key: event.map_session_id.clone(),
                server_id,
                host_port: event.host_port,
                map_name: event.map_name.clone(),
                gamemode: event.gamemode.clone(),
                started_at: session_start_of(event),
                start_tick: event.server_tick,
                tick_interval: event.tick_interval_seconds,
                expected_tickrate: event.expected_tickrate,
                now: event.occurred_at,
            },
        ),
    }
}

/// The request that stores the start of a session.
pub fn start_session(event: &StatsEvent, session_id: u64) -> (r: DbRequest)
    ensures
        r@ == start_session_request(event@, session_id),
{
    DbRequest::StartSession {
        session_id,
        map_name: event.map_name.clone(),
        gamemode: event.gamemode.clone(),
        started_at: session_start_of(event),
        start_tick: event.server_tick,
        tick_interval: event.tick_interval_seconds,
        expected_tickrate: event.expected_tickrate,
        now: event.occurred_at,
    }
}

/// The request that stores the end of a session.
pub fn end_session(event: &StatsEvent, session_id: u64, inferred: bool) -> (r: DbRequest)
    ensures
        r@ == end_session_request(event@, session_id, inferred),
{
    let ended_at: i64 = if event.session_ended_at > 0 {
        event.session_ended_at
    } else {
        event.occurred_at
    };
    DbRequest::EndSession {
        session_id,
        ended_at,
        end_reason: event.end_reason.clone(),
        end_inferred: inferred,
        end_tick: event.server_tick,
        average_tickrate: event.session_average_tickrate,
        minimum_tickrate: event.session_minimum_tickrate,
        sample_count: event.session_sample_count,
    }
}

/// Each column of the row of an event or of a tick sample holds the event's own
/// field, unchanged.
pub proof fn law_rows_hold_their_event(e: EventModel, session_id: u64)
    ensures
        event_row(e, session_id).session_id == session_id,
        tick_row(e, session_id).session_id == session_id,
        e.event_id matches Some(id) ==> event_row(e, session_id).event_id == id,
        e.event_id matches Some(id) ==> tick_row(e, session_id).event_id == id,
        e.event_id is None ==> event_row(e, session_id).event_id.len() == 0,
        e.event_id is None ==> tick_row(e, session_id).event_id.len() == 0,
        event_row(e, session_id).source_plugin == e.source_plugin,
        event_row(e, session_id).event_name == e.event_name,
        event_row(e, session_id).message == e.message,
        event_row(e, session_id).occurred_at == e.occurred_at,
        event_row(e, session_id).server_tick == e.server_tick,
        event_row(e, session_id).tick_interval == e.tick_interval_seconds,
        event_row(e, session_id).expected_tickrate == e.expected_tickrate,
        event_row(e, session_id).observed_tickrate == e.observed_tickrate,
        tick_row(e, session_id).sampled_at == e.occurred_at,
        tick_row(e, session_id).server_tick == e.server_tick,
        tick_row(e, session_id).tick_interval == e.tick_interval_seconds,
        tick_row(e, session_id).expected_tickrate == e.expected_tickrate,
        tick_row(e, session_id).observed_tickrate == e.observed_tickrate,
{
}

/// A server and a session are stored as the event says them; a session starts when
/// the event says that it did, and with the event where it says nothing.
pub proof fn law_stored_servers_and_sessions(e: EventModel, server_id: u64)
    ensures
        upsert_server(e) == (RequestModel::UpsertServer {
            server_key: e.server_id,
            hostname: e.server_name,
            host_port: e.host_port,
            now: e.occurred_at,
        }),
        upsert_session(e, server_id) == (RequestModel::UpsertSession {
            session_key: e.map_session_id,
            server_id,
            host_port: e.host_port,
            map_name: e.map_name,
            gamemode: e.gamemode,
            started_at: if e.session_started_at > 0 {
                e.session_started_at
            } else {
                e.occurred_at
            },
            start_tick: e.server_tick,
            tick_interval: e.tick_interval_seconds,
            expected_tickrate: e.expected_tickrate,
            now: e.occurred_at,
        }),
{
}

/// The start of a session is stored as its record says it.
pub proof fn law_session_starts_are_stored(e: EventModel, session_id: u64)
    ensures
        start_session_request(e, session_id) matches RequestModel::StartSession {
            session_id: stored,
            map_name,
            gamemode,
            started_at,
            start_tick,
            tick_interval,
            expected_tickrate,
            now,
        } && {
            &&& stored == session_id
            &&& map_name == e.map_name
            &&& gamemode == e.gamemode
            &&& e.session_started_at > 0 ==> started_at == e.session_started_at
            &&& e.session_started_at <= 0 ==> started_at == e.occurred_at
            &&& start_tick == e.server_tick
            &&& tick_interval == e.tick_interval_seconds
            &&& expected_tickrate == e.expected_tickrate
            &&& now == e.occurred_at
        },
{
}

/// The end of a session is stored as its record says it: it ended when the record
/// says that it did, and with the record where that says nothing, whenever it
/// started.
pub proof fn law_session_ends_are_stored(e: EventModel, session_id: u64, inferred: bool)
    ensures
        end_session_request(e, session_id, inferred) matches RequestModel::EndSession {
            session_id: stored,
            ended_at,
            end_reason,
            end_inferred,
            end_tick,
            average_tickrate,
            minimum_tickrate,
            sample_count,
        } && {
            &&& stored == session_id
            &&& e.session_ended_at > 0 ==> ended_at == e.session_ended_at
            &&& e.session_ended_at <= 0 ==> ended_at == e.occurred_at
            &&& end_reason == e.end_reason
            &&& end_inferred == inferred
            &&& end_tick == e.server_tick
            &&& average_tickrate == e.session_average_tickrate
            &&& minimum_tickrate == e.session_minimum_tickrate
            &&& sample_count == e.session_sample_count
        },
{
}

/// A reply is taken for what it gives.
pub proof fn law_replies_are_taken_as_given(
    id: u64,
    list: Seq<(u64, i64)>,
    at: Option<i64>,
    aggregate: (Option<Rate>, Option<Rate>, u64),
)
    ensures
        reply_id(ReplyModel::Id(Some(id))) == id,
        reply_id(ReplyModel::Id(None)) == 0,
        reply_sessions(ReplyModel::Sessions(list)) == list,
        reply_time(ReplyModel::Time(at)) == at,
        reply_aggregate(ReplyModel::Aggregate(Some(aggregate))) == aggregate,
        reply_aggregate(ReplyModel::Aggregate(None)) == (
            None::<Rate>,
            None::<Rate>,
            0u64,
        ),
        empty_cache().servers.dom() == Set::<Seq<char>>::empty(),
        empty_cache().sessions.dom() == Set::<(u64, Seq<char>)>::empty(),
{
}

/// The view of a row holds each of its columns as it is, and that of a list of
/// rows each of them in its place.
pub proof fn law_row_views(
    row: EventRow,
    tick: TickRow,
    rows: Seq<EventRow>,
    ticks: Seq<TickRow>,
    i: int,
)
    requires
        0 <= i < rows.len(),
        0 <= i < ticks.len(),
    ensures
        row@.event_id == row.event_id@,
        row@.source_plugin == row.source_plugin@,
        row@.event_name == row.event_name@,
        row@.message == row.message@,
        row@.session_id == row.session_id,
        row@.occurred_at == row.occurred_at,
        row@.server_tick == row.server_tick,
        row@.tick_interval == row.tick_interval,
        row@.expected_tickrate == row.expected_tickrate,
        row@.observed_tickrate == row.observed_tickrate,
        tick@.event_id == tick.event_id@,
        tick@.session_id == tick.session_id,
        tick@.sampled_at == tick.sampled_at,
        tick@.server_tick == tick.server_tick,
        tick@.tick_interval == tick.tick_interval,
        tick@.expected_tickrate == tick.expected_tickrate,
        tick@.observed_tickrate == tick.observed_tickrate,
        event_row_models(rows).len() == rows.len(),
        event_row_models(rows)[i] == rows[i]@,
        tick_row_models(ticks).len() == ticks.len(),
        tick_row_models(ticks)[i] == ticks[i]@,
{
}

/// The view of a request holds what the request says.
pub proof fn law_request_view(request: DbRequest)
    ensures
        match request {
            DbRequest::UpsertServer {
                server_key,
                hostname,
                host_port,
                now,
            } => request@ == (RequestModel::UpsertServer {
                server_key: server_key@,
                hostname: hostname@,
                host_port,
                now,
            }),
            DbRequest::UpsertSession {
                session_key,
                server_id,
                host_port,
                map_name,
                gamemode,
                started_at,
                start_tick,
                tick_interval,
                expected_tickrate,
                now,
            } => request@ == (RequestModel::UpsertSession {
                session_key: session_key@,
                server_id,
                host_port,
                map_name: map_name@,
                gamemode: gamemode@,
                started_at,
                start_tick,
                tick_interval,
                expected_tickrate,
                now,
            }),
            DbRequest::StaleSessions {
                server_id,
                session_id,
            } => request@ == (RequestModel::StaleSessions {
                server_id,
                session_id,
            }),
            DbRequest::LastEventAt { session_id } => request@ == (RequestModel::LastEventAt {
                session_id,
            }),
            DbRequest::LastTickAt { session_id } => request@ == (RequestModel::LastTickAt {
                session_id,
            }),
            DbRequest::TickAggregate { session_id } => request@ == (RequestModel::TickAggregate {
                session_id,
            }),
            DbRequest::CloseSession {
                session_id,
                ended_at,
                average,
                minimum,
                samples,
            } => request@ == (RequestModel::CloseSession {
                session_id,
                ended_at,
                average,
                minimum,
                samples,
            }),
            DbRequest::StartSession {
                session_id,
                map_name,
                gamemode,
                started_at,
                start_tick,
                tick_interval,
                expected_tickrate,
                now,
            } => request@ == (RequestModel::StartSession {
                session_id,
                map_name: map_name@,
                gamemode: gamemode@,
                started_at,
                start_tick,
                tick_interval,
                expected_tickrate,
                now,
            }),
            DbRequest::EndSession {
                session_id,
                ended_at,
                end_reason,
                end_inferred,
                end_tick,
                average_tickrate,
                minimum_tickrate,
                sample_count,
            } => request@ == (RequestModel::EndSession {
                session_id,
                ended_at,
                end_reason: end_reason@,
                end_inferred,
                end_tick,
                average_tickrate,
                minimum_tickrate,
                sample_count,
            }),
            DbRequest::TouchServer {
                server_id,
                hostname,
                host_port,
                last_seen_at,
            } => request@ == (RequestModel::TouchServer {
                server_id,
                hostname: hostname@,
                host_port,
                last_seen_at,
            }),
            DbRequest::InsertEvents { events } => request@ == (RequestModel::InsertEvents {
                events: event_row_models(events@),
            }),
            DbRequest::InsertTicks { ticks } => request@ == (RequestModel::InsertTicks {
                ticks: tick_row_models(ticks@),
            }),
            DbRequest::LastInsertId => request@ is LastInsertId,
            DbRequest::Commit => request@ is Commit,
            DbRequest::Finished => request@ is Finished,
        },
{
}

/// The view of a reply holds what the reply says.
pub proof fn law_reply_view(reply: DbReply)
    ensures
        match reply {
            DbReply::Done => reply@ is Done,
            DbReply::Id(id) => reply@ == ReplyModel::Id(id),
            DbReply::Sessions(list) => reply@ == ReplyModel::Sessions(list@),
            DbReply::Time(at) => reply@ == ReplyModel::Time(at),
            DbReply::Aggregate(a) => reply@ == ReplyModel::Aggregate(a),
        },
{
}

/// The rows that [`EventRow::of`] and [`TickRow::of`] make hold in each column the
/// event's own field, as it is.
pub proof fn law_made_rows_hold_their_event(
    event: StatsEvent,
    session_id: u64,
    row: EventRow,
    sample: TickRow,
)
    requires
        call_ensures(EventRow::of, (&event, session_id), row),
        call_ensures(TickRow::of, (&event, session_id), sample),
    ensures
        event.event_id matches Some(id) ==> row.event_id@ == id@ && sample.event_id@ == id@,
        event.event_id is None ==> row.event_id@.len() == 0 && sample.event_id@.len() == 0,
        row.session_id == session_id,
        row.source_plugin@ == event.source_plugin@,
        row.event_name@ == event.event_name@,
        row.message@ == event.message@,
        row.occurred_at == event.occurred_at,
        row.server_tick == event.server_tick,
        row.tick_interval == event.tick_interval_seconds,
        row.expected_tickrate == event.expected_tickrate,
        row.observed_tickrate == event.observed_tickrate,
        sample.session_id == session_id,
        sample.sampled_at == event.occurred_at,
        sample.server_tick == event.server_tick,
        sample.tick_interval == event.tick_interval_seconds,
        sample.expected_tickrate == event.expected_tickrate,
        sample.observed_tickrate == event.observed_tickrate,
{
}

/// The requests that [`start_session`] and [`end_session`] make hold the event's own
/// fields, as they are; a start or an end that the event does not name is the time
/// of the event.
pub proof fn law_made_session_requests_hold_their_event(
    event: StatsEvent,
    session: u64,
    inferred: bool,
    start: DbRequest,
    end: DbRequest,
)
    requires
        call_ensures(start_session, (&event, session), start),
        call_ensures(end_session, (&event, session, inferred), end),
    ensures
        start matches DbRequest::StartSession {
            session_id,
            map_name,
            gamemode,
            started_at,
            start_tick,
            tick_interval,
            expected_tickrate,
            now,
        } && {
            &&& session_id == session
            &&& map_name@ == event.map_name@
            &&& gamemode@ == event.gamemode@
            &&& event.session_started_at > 0 ==> started_at == event.session_started_at
            &&& event.session_started_at <= 0 ==> started_at == event.occurred_at
            &&& start_tick == event.server_tick
            &&& tick_interval == event.tick_interval_seconds
            &&& expected_tickrate == event.expected_tickrate
            &&& now == event.occurred_at
        },
        end matches DbRequest::EndSession {
            session_id,
            ended_at,
            end_reason,
            end_inferred,
            end_tick,
            average_tickrate,
            minimum_tickrate,
            sample_count,
        } && {
            &&& session_id == session
            &&& event.session_ended_at > 0 ==> ended_at == event.session_ended_at
            &&& event.session_ended_at <= 0 ==> ended_at == event.occurred_at
            &&& end_reason@ == event.end_reason@
            &&& end_inferred == inferred
            &&& end_tick == event.server_tick
            &&& average_tickrate == event.session_average_tickrate
            &&& minimum_tickrate == event.session_minimum_tickrate
            &&& sample_count == event.session_sample_count
        },
{
}

/// What [`ensure_server`] and [`ensure_session`] answer: what the cache knows, or
/// the request that stores the event's server or session with the event's own
/// fields, as they are.
pub proof fn law_made_requests_store_what_is_unknown(
    cache: WriterCache,
    server: u64,
    event: StatsEvent,
    a: Result<u64, DbRequest>,
    b: Result<u64, DbRequest>,
)
    requires
        call_ensures(ensure_server, (&cache, &event), a),
        call_ensures(ensure_session, (&cache, server, &event), b),
    ensures
        cache@.servers.contains_key(event.server_id@) ==> a == Ok::<u64, DbRequest>(
            cache@.servers[event.server_id@],
        ),
        !cache@.servers.contains_key(event.server_id@) ==> (a matches Err(
            DbRequest::UpsertServer { server_key, hostname, host_port, now },
        ) && {
            &&& server_key@ == event.server_id@
            &&& hostname@ == event.server_name@
            &&& host_port == event.host_port
            &&& now == event.occurred_at
        }),
        cache@.sessions.contains_key((server, event.map_session_id@)) ==> b == Ok::<
            u64,
            DbRequest,
        >(cache@.sessions[(server, event.map_session_id@)]),
        !cache@.sessions.contains_key((server, event.map_session_id@)) ==> (b matches Err(
            DbRequest::UpsertSession {
                session_key,
                server_id,
                host_port,
                map_name,
                gamemode,
                started_at,
                start_tick,
                tick_interval,
                expected_tickrate,
                now,
            },
        ) && {
            &&& session_key@ == event.map_session_id@
            &&& server_id == server
            &&& host_port == event.host_port
            &&& map_name@ == event.map_name@
            &&& gamemode@ == event.gamemode@
            &&& event.session_started_at > 0 ==> started_at == event.session_started_at
            &&& event.session_started_at <= 0 ==> started_at == event.occurred_at
            &&& start_tick == event.server_tick
            &&& tick_interval == event.tick_interval_seconds
            &&& expected_tickrate == event.expected_tickrate
            &&& now == event.occurred_at
        }),
{
}

/// What [`WriterCache::keep_server`] and [`WriterCache::keep_session`] are told is
/// known from then on, and nothing else changes; after [`WriterCache::clear`]
/// nothing is known.
pub proof fn law_the_cache_keeps_what_it_is_told(
    server_key: &str,
    session_key: &str,
    server_id: u64,
    id: u64,
    other: Seq<char>,
    other_session: (u64, Seq<char>),
)
    ensures
        forall|c: &mut WriterCache|
            #[trigger] call_ensures(WriterCache::keep_server, (c, server_key, id), ()) ==> {
                &&& final(c)@.servers.contains_key(server_key@)
                &&& final(c)@.servers[server_key@] == id
                &&& other != server_key@ ==> (final(c)@.servers.contains_key(other)
                    <==> (*c)@.servers.contains_key(other))
                &&& other != server_key@ && (*c)@.servers.contains_key(other)
                    ==> final(c)@.servers[other] == (*c)@.servers[other]
                &&& final(c)@.sessions == (*c)@.sessions
            },
        forall|c: &mut WriterCache|
            #[trigger] call_ensures(
                WriterCache::keep_session,
                (c, server_id, session_key, id),
                (),
            ) ==> {
                let key = (server_id, session_key@);
                &&& final(c)@.sessions.contains_key(key)
                &&& final(c)@.sessions[key] == id
                &&& other_session != key ==> (final(c)@.sessions.contains_key(other_session)
                    <==> (*c)@.sessions.contains_key(other_session))
                &&& other_session != key && (*c)@.sessions.contains_key(other_session)
                    ==> final(c)@.sessions[other_session] == (*c)@.sessions[other_session]
                &&& final(c)@.servers == (*c)@.servers
            },
        forall|c: &mut WriterCache|
            #[trigger] call_ensures(WriterCache::clear, (c,), ()) ==> {
                &&& !final(c)@.servers.contains_key(other)
                &&& !final(c)@.sessions.contains_key(other_session)
            },
{
}

} // verus!
