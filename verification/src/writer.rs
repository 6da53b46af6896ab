//! What is written to the database, and in which order.
//!
//! A batch is written in one transaction. [`WriteRun`] decides on its
//! statements: each call of [`WriteRun::step`] takes the database's reply to the
//! last request and gives the next one.

use crate::database::{
    end_session, end_session_request, ensure_server, ensure_session, event_row, event_row_models,
    reply_aggregate, reply_id, reply_sessions, reply_time, start_session, start_session_request,
    tick_row, tick_row_models, upsert_server, upsert_session, CacheModel, DbReply, DbRequest,
    EventRow, EventRowModel, ReplyModel, RequestModel, TickRow, TickRowModel, WriterCache,
};
use crate::event::{EventModel, StatsEvent};
use crate::queue::{queued_models, QueuedEvent, QueuedModel};
use crate::text::same_text;
use crate::tickrate::Rate;
use vstd::prelude::*;

verus! {

/// The latest sign of life of a server in a batch.
#[derive(Debug)]
pub struct ServerActivity {
    pub server_id: u64,
    pub last_seen_at: i64,
    pub host_port: i32,
    pub hostname: String,
}

/// What a sign of life says.
#[verifier::ext_equal]
pub struct ActivityModel {
    pub server_id: u64,
    pub last_seen_at: i64,
    pub host_port: i32,
    pub hostname: Seq<char>,
}

impl View for ServerActivity {
    type V = ActivityModel;

    open spec fn view(&self) -> ActivityModel {
        ActivityModel {
            server_id: self.server_id,
            last_seen_at: self.last_seen_at,
            host_port: self.host_port,
            hostname: self.hostname@,
        }
    }
}

/// What a sequence of signs of life says.
pub open spec fn activity_models(list: Seq<ServerActivity>) -> Seq<ActivityModel> {
    list.map_values(|a: ServerActivity| a@)
}

/// The place of a server among the signs of life, or their number where it has
/// given none.
pub open spec fn activity_index(list: Seq<ActivityModel>, server_id: u64) -> int
    decreases list.len(),
{
    if list.len() == 0 || list[0].server_id == server_id {
        0
    } else {
        1 + activity_index(list.skip(1), server_id)
    }
}

/// The sign of life that an event is.
pub open spec fn sign_of_life(e: EventModel, server_id: u64) -> ActivityModel {
    ActivityModel {
        server_id,
        last_seen_at: e.occurred_at,
        host_port: e.host_port,
        hostname: e.server_name,
    }
}

/// The signs of life after an event of `server_id`: the latest one counts, and
/// of two at the same time the one that comes later.
pub open spec fn seen_active(
    list: Seq<ActivityModel>,
    server_id: u64,
    e: EventModel,
) -> Seq<ActivityModel> {
    let i = activity_index(list, server_id);
    if i >= list.len() {
        list.push(sign_of_life(e, server_id))
    } else if e.occurred_at >= list[i].last_seen_at {
        list.update(i, sign_of_life(e, server_id))
    } else {
        list
    }
}

/// When a session ended whose own end was never sent: with its last event or
/// sample, but not before it started and not after the next one started.
pub open spec fn stale_end(
    last_event: Option<i64>,
    last_tick: Option<i64>,
    started_at: i64,
    next_started_at: i64,
) -> i64 {
    let last = match (last_event, last_tick) {
        (Some(e), Some(t)) => if e >= t {
            e
        } else {
            t
        },
        (Some(e), None) => e,
        (None, Some(t)) => t,
        (None, None) => started_at,
    };
    let latest = if next_started_at >= started_at {
        next_started_at
    } else {
        started_at
    };
    if last < started_at {
        started_at
    } else if last > latest {
        latest
    } else {
        last
    }
}

/// Which reply is awaited.
enum WritePhase {
    /// None: nothing has been asked.
    Begin,
    /// That the server of the current event was stored.
    ServerStored,
    /// The identifier of that server.
    ServerId,
    /// That the session of the current event was stored.
    SessionStored { server_id: u64 },
    /// The identifier of that session.
    SessionId { server_id: u64 },
    /// The other sessions of the server that have not ended.
    StaleList { session_id: u64 },
    /// The time of the last event of the stale session `at`.
    StaleEvent { session_id: u64, stale: Vec<(u64, i64)>, at: usize },
    /// The time of its last tick sample.
    StaleTick { session_id: u64, stale: Vec<(u64, i64)>, at: usize, last_event: Option<i64> },
    /// The aggregate of its tick samples.
    StaleAggregate { session_id: u64, stale: Vec<(u64, i64)>, at: usize, ended_at: i64 },
    /// That it was ended.
    StaleClosed { session_id: u64, stale: Vec<(u64, i64)>, at: usize },
    /// That the start or end of the session was stored.
    SessionUpdated,
    /// That the sign of life `at` was stored.
    ServerTouched { at: usize },
    /// That the rows of events were inserted.
    EventsInserted,
    /// That the rows of tick samples were inserted.
    TicksInserted,
    /// That the transaction was committed.
    Committed,
    /// None: the batch is written.
    Over,
}

/// What a phase says.
pub enum PhaseModel {
    Begin,
    ServerStored,
    ServerId,
    SessionStored { server_id: u64 },
    SessionId { server_id: u64 },
    StaleList { session_id: u64 },
    StaleEvent { session_id: u64, stale: Seq<(u64, i64)>, at: int },
    StaleTick { session_id: u64, stale: Seq<(u64, i64)>, at: int, last_event: Option<i64> },
    StaleAggregate { session_id: u64, stale: Seq<(u64, i64)>, at: int, ended_at: i64 },
    StaleClosed { session_id: u64, stale: Seq<(u64, i64)>, at: int },
    SessionUpdated,
    ServerTouched { at: int },
    EventsInserted,
    TicksInserted,
    Committed,
    Over,
}

impl View for WritePhase {
    type V = PhaseModel;

    closed spec fn view(&self) -> PhaseModel {
        match self {
            WritePhase::Begin => PhaseModel::Begin,
            WritePhase::ServerStored => PhaseModel::ServerStored,
            WritePhase::ServerId => PhaseModel::ServerId,
            WritePhase::SessionStored { server_id } => PhaseModel::SessionStored {
                server_id: *server_id,
            },
            WritePhase::SessionId { server_id } => PhaseModel::SessionId {
                server_id: *server_id,
            },
            WritePhase::StaleList { session_id } => PhaseModel::StaleList {
                session_id: *session_id,
            },
            WritePhase::StaleEvent { session_id, stale, at } => PhaseModel::StaleEvent {
                session_id: *session_id,
                stale: stale@,
                at: *at as int,
            },
            WritePhase::StaleTick { session_id, stale, at, last_event } => PhaseModel::StaleTick {
                session_id: *session_id,
                stale: stale@,
                at: *at as int,
                last_event: *last_event,
            },
            WritePhase::StaleAggregate { session_id, stale, at, ended_at } =>
                PhaseModel::StaleAggregate {
                session_id: *session_id,
                stale: stale@,
                at: *at as int,
                ended_at: *ended_at,
            },
            WritePhase::StaleClosed { session_id, stale, at } => PhaseModel::StaleClosed {
                session_id: *session_id,
                stale: stale@,
                at: *at as int,
            },
            WritePhase::SessionUpdated => PhaseModel::SessionUpdated,
            WritePhase::ServerTouched { at } => PhaseModel::ServerTouched { at: *at as int },
            WritePhase::EventsInserted => PhaseModel::EventsInserted,
            WritePhase::TicksInserted => PhaseModel::TicksInserted,
            WritePhase::Committed => PhaseModel::Committed,
            WritePhase::Over => PhaseModel::Over,
        }
    }
}

/// The writing of one batch.
pub struct WriteRun {
    state: WriteState,
}

/// How far the writing of a batch has come.
struct WriteState {
    items: Vec<QueuedEvent>,
    position: usize,
    phase: WritePhase,
    event_rows: Vec<EventRow>,
    tick_rows: Vec<TickRow>,
    activity: Vec<ServerActivity>,
}

/// What the writing of a batch has come to, with what the cache knows.
#[verifier::ext_equal]
pub struct WriteModel {
    pub items: Seq<QueuedModel>,
    pub position: int,
    pub phase: PhaseModel,
    pub event_rows: Seq<EventRowModel>,
    pub tick_rows: Seq<TickRowModel>,
    pub activity: Seq<ActivityModel>,
    pub cache: CacheModel,
}

impl WriteState {
    /// What this state says, with a cache that knows `cache`.
    spec fn model(&self, cache: CacheModel) -> WriteModel {
        WriteModel {
            items: queued_models(self.items@),
            position: self.position as int,
            phase: self.phase@,
            event_rows: event_row_models(self.event_rows@),
            tick_rows: tick_row_models(self.tick_rows@),
            activity: activity_models(self.activity@),
            cache,
        }
    }
}

impl WriteRun {
    /// What this run has come to, with a cache that knows `cache`.
    pub closed spec fn model(&self, cache: CacheModel) -> WriteModel {
        self.state.model(cache)
    }

    #[verifier::type_invariant]
    spec fn well_formed(self) -> bool {
        forall|cache: CacheModel| #[trigger] self.state.model(cache).well_formed()
    }
}

impl WriteModel {
    /// The event that is being written.
    pub open spec fn current(self) -> EventModel {
        self.items[self.position].event
    }

    /// The phase is one that belongs to an event of the batch.
    pub open spec fn within_item(self) -> bool {
        match self.phase {
            PhaseModel::ServerStored => true,
            PhaseModel::ServerId => true,
            PhaseModel::SessionStored { .. } => true,
            PhaseModel::SessionId { .. } => true,
            PhaseModel::StaleList { .. } => true,
            PhaseModel::StaleEvent { .. } => true,
            PhaseModel::StaleTick { .. } => true,
            PhaseModel::StaleAggregate { .. } => true,
            PhaseModel::StaleClosed { .. } => true,
            PhaseModel::SessionUpdated => true,
            _ => false,
        }
    }

    /// The places that the run stands at exist.
    pub open spec fn well_formed(self) -> bool {
        &&& 0 <= self.position <= self.items.len()
        &&& self.within_item() ==> self.position < self.items.len()
        &&& match self.phase {
            PhaseModel::StaleEvent { stale, at, .. } => 0 <= at < stale.len(),
            PhaseModel::StaleTick { stale, at, .. } => 0 <= at < stale.len(),
            PhaseModel::StaleAggregate { stale, at, .. } => 0 <= at < stale.len(),
            PhaseModel::StaleClosed { stale, at, .. } => 0 <= at < stale.len(),
            PhaseModel::ServerTouched { at } => 0 <= at < self.activity.len(),
            _ => true,
        }
    }
}

/// The current event with its session known: a start or an end is stored in the
/// session, a sample or an event becomes a row and is then done with.
pub open spec fn with_session(w: WriteModel, server_id: u64, session_id: u64) -> (
    WriteModel,
    Option<RequestModel>,
) {
    let e = w.current();
    if e.record_type == "session_start"@ {
        (
            WriteModel { phase: PhaseModel::StaleList { session_id }, ..w },
            Some(RequestModel::StaleSessions { server_id, session_id }),
        )
    } else if e.record_type == "session_end"@ {
        (
            WriteModel { phase: PhaseModel::SessionUpdated, ..w },
            Some(end_session_request(e, session_id, false)),
        )
    } else if e.record_type == "tick_sample"@ {
        (
            WriteModel {
                tick_rows: w.tick_rows.push(tick_row(e, session_id)),
                position: w.position + 1,
                phase: PhaseModel::Begin,
                ..w
            },
            None,
        )
    } else {
        (
            WriteModel {
                event_rows: w.event_rows.push(event_row(e, session_id)),
                position: w.position + 1,
                phase: PhaseModel::Begin,
                ..w
            },
            None,
        )
    }
}

/// The current event with its server known: the server has shown a sign of
/// life, and the session comes next.
pub open spec fn with_server(w: WriteModel, server_id: u64) -> (WriteModel, Option<RequestModel>) {
    let e = w.current();
    let seen = WriteModel { activity: seen_active(w.activity, server_id, e), ..w };
    let key = (server_id, e.map_session_id);
    if w.cache.sessions.contains_key(key) {
        with_session(seen, server_id, w.cache.sessions[key])
    } else {
        (
            WriteModel { phase: PhaseModel::SessionStored { server_id }, ..seen },
            Some(upsert_session(e, server_id)),
        )
    }
}

/// The signs of life from `at` on are stored, then the rows are inserted.
pub open spec fn touch_from(w: WriteModel, at: int) -> (WriteModel, RequestModel) {
    if at < w.activity.len() {
        let a = w.activity[at];
        (
            WriteModel { phase: PhaseModel::ServerTouched { at }, ..w },
            RequestModel::TouchServer {
                server_id: a.server_id,
                hostname: a.hostname,
                host_port: a.host_port,
                last_seen_at: a.last_seen_at,
            },
        )
    } else {
        (
            WriteModel { phase: PhaseModel::EventsInserted, event_rows: Seq::empty(), ..w },
            RequestModel::InsertEvents { events: w.event_rows },
        )
    }
}

/// Goes through the events from the current one on, up to the first that needs
/// the database.
pub open spec fn advance(w: WriteModel) -> (WriteModel, RequestModel)
    decreases w.items.len() - w.position,
{
    if w.position >= w.items.len() {
        touch_from(w, 0)
    } else {
        let e = w.current();
        if w.cache.servers.contains_key(e.server_id) {
            let (next, request) = with_server(w, w.cache.servers[e.server_id]);
            match request {
                Some(r) => (next, r),
                None => advance(next),
            }
        } else {
            (WriteModel { phase: PhaseModel::ServerStored, ..w }, upsert_server(e))
        }
    }
}

/// The request where there is one, the following events where there is none.
pub open spec fn request_or_advance(step: (WriteModel, Option<RequestModel>)) -> (
    WriteModel,
    RequestModel,
) {
    match step.1 {
        Some(r) => (step.0, r),
        None => advance(step.0),
    }
}

/// The stale sessions from `at` on are ended, then the start of the new session
/// is stored.
pub open spec fn stale_from(w: WriteModel, session_id: u64, stale: Seq<(u64, i64)>, at: int) -> (
    WriteModel,
    RequestModel,
) {
    if at < stale.len() {
        (
            WriteModel { phase: PhaseModel::StaleEvent { session_id, stale, at }, ..w },
            RequestModel::LastEventAt { session_id: stale[at].0 },
        )
    } else {
        (
            WriteModel { phase: PhaseModel::SessionUpdated, ..w },
            start_session_request(w.current(), session_id),
        )
    }
}

/// The server of the current event is known as `id`.
pub open spec fn server_learnt(w: WriteModel, id: u64) -> WriteModel {
    WriteModel {
        cache: CacheModel {
            servers: w.cache.servers.insert(w.current().server_id, id),
            ..w.cache
        },
        ..w
    }
}

/// The session of the current event on `server_id` is known as `id`.
pub open spec fn session_learnt(w: WriteModel, server_id: u64, id: u64) -> WriteModel {
    WriteModel {
        cache: CacheModel {
            sessions: w.cache.sessions.insert((server_id, w.current().map_session_id), id),
            ..w.cache
        },
        ..w
    }
}

/// What the reply to the last request leads to: the next state and the next
/// request.
pub open spec fn write_step(w: WriteModel, reply: ReplyModel) -> (WriteModel, RequestModel) {
    match w.phase {
        PhaseModel::Begin => advance(w),
        PhaseModel::ServerStored => (
            WriteModel { phase: PhaseModel::ServerId, ..w },
            RequestModel::LastInsertId,
        ),
        PhaseModel::ServerId => {
            let id = reply_id(reply);
            request_or_advance(with_server(server_learnt(w, id), id))
        },
        PhaseModel::SessionStored { server_id } => (
            WriteModel { phase: PhaseModel::SessionId { server_id }, ..w },
            RequestModel::LastInsertId,
        ),
        PhaseModel::SessionId { server_id } => {
            let id = reply_id(reply);
            request_or_advance(with_session(session_learnt(w, server_id, id), server_id, id))
        },
        PhaseModel::StaleList { session_id } => stale_from(
            w,
            session_id,
            reply_sessions(reply),
            0,
        ),
        PhaseModel::StaleEvent { session_id, stale, at } => (
            WriteModel {
                phase: PhaseModel::StaleTick {
                    session_id,
                    stale,
                    at,
                    last_event: reply_time(reply),
                },
                ..w
            },
            RequestModel::LastTickAt { session_id: stale[at].0 },
        ),
        PhaseModel::StaleTick { session_id, stale, at, last_event } => (
            WriteModel {
                phase: PhaseModel::StaleAggregate {
                    session_id,
                    stale,
                    at,
                    ended_at: stale_end(
                        last_event,
                        reply_time(reply),
                        stale[at].1,
                        w.current().occurred_at,
                    ),
                },
                ..w
            },
            RequestModel::TickAggregate { session_id: stale[at].0 },
        ),
        PhaseModel::StaleAggregate { session_id, stale, at, ended_at } => {
            let a = reply_aggregate(reply);
            (
                WriteModel { phase: PhaseModel::StaleClosed { session_id, stale, at }, ..w },
                RequestModel::CloseSession {
                    session_id: stale[at].0,
                    ended_at,
                    average: a.0,
                    minimum: a.1,
                    samples: a.2,
                },
            )
        },
        PhaseModel::StaleClosed { session_id, stale, at } => stale_from(
            w,
            session_id,
            stale,
            at + 1,
        ),
        PhaseModel::SessionUpdated => advance(
            WriteModel { position: w.position + 1, phase: PhaseModel::Begin, ..w },
        ),
        PhaseModel::ServerTouched { at } => touch_from(w, at + 1),
        PhaseModel::EventsInserted => (
            WriteModel { phase: PhaseModel::TicksInserted, tick_rows: Seq::empty(), ..w },
            RequestModel::InsertTicks { ticks: w.tick_rows },
        ),
        PhaseModel::TicksInserted => (
            WriteModel { phase: PhaseModel::Committed, ..w },
            RequestModel::Commit,
        ),
        PhaseModel::Committed => (
            WriteModel { phase: PhaseModel::Over, ..w },
            RequestModel::Finished,
        ),
        PhaseModel::Over => (w, RequestModel::Finished),
    }
}

/// The start of the writing of a batch.
pub open spec fn write_begin(items: Seq<QueuedModel>, cache: CacheModel) -> WriteModel {
    WriteModel {
        items,
        position: 0,
        phase: PhaseModel::Begin,
        event_rows: Seq::empty(),
        tick_rows: Seq::empty(),
        activity: Seq::empty(),
        cache,
    }
}

/// When a session ended whose own end was never sent.
pub fn finalize_stale_session(
    last_event: Option<i64>,
    last_tick: Option<i64>,
    started_at: i64,
    next_started_at: i64,
) -> (ended_at: i64)
    ensures
        ended_at == stale_end(last_event, last_tick, started_at, next_started_at),
{
    let last: i64 = match (last_event, last_tick) {
        (Some(e), Some(t)) => if e >= t {
            e
        } else {
            t
        },
        (Some(e), None) => e,
        (None, Some(t)) => t,
        (None, None) => started_at,
    };
    let latest: i64 = if next_started_at >= started_at {
        next_started_at
    } else {
        started_at
    };
    if last < started_at {
        started_at
    } else if last > latest {
        latest
    } else {
        last
    }
}

/// A place that holds the server, with none before it, is the server's place.
proof fn lemma_activity_index(list: Seq<ActivityModel>, server_id: u64, i: int)
    requires
        0 <= i <= list.len(),
        forall|j: int| 0 <= j < i ==> (#[trigger] list[j]).server_id != server_id,
        i < list.len() ==> list[i].server_id == server_id,
    ensures
        activity_index(list, server_id) == i,
    decreases list.len(),
{
    if list.len() > 0 && list[0].server_id != server_id {
        let rest = list.skip(1);
        assert forall|j: int| 0 <= j < i - 1 implies (#[trigger] rest[j]).server_id
            != server_id by {
            assert(rest[j] == list[j + 1]);
        }
        lemma_activity_index(rest, server_id, i - 1);
    }
}

/// Notes a sign of life of a server.
fn note_activity(list: &mut Vec<ServerActivity>, server_id: u64, event: &StatsEvent)
    ensures
        activity_models(final(list)@) == seen_active(
            activity_models(old(list)@),
            server_id,
            event@,
        ),
{
    let mut i: usize = 0;
    while i < list.len() && list[i].server_id != server_id
        invariant
            i <= list.len(),
            *list == *old(list),
            forall|j: int| 0 <= j < i ==> (#[trigger] list@[j]).server_id != server_id,
        decreases list.len() - i,
    {
        i += 1;
    }
    let ghost models = activity_models(list@);
    proof {
        assert forall|j: int| 0 <= j < i implies (#[trigger] models[j]).server_id != server_id by {
            assert(models[j] == list@[j]@);
        }
        lemma_activity_index(models, server_id, i as int);
    }
    if i == list.len() || event.occurred_at >= list[i].last_seen_at {
        let sign = ServerActivity {
            server_id,
            last_seen_at: event.occurred_at,
            host_port: event.host_port,
            hostname: event.server_name.clone(),
        };
        if i == list.len() {
            list.push(sign);
        } else {
            list.set(i, sign);
        }
    }
    assert(activity_models(list@) =~= seen_active(models, server_id, event@));
}

/// What a request says, where there is one.
spec fn maybe_request(request: Option<DbRequest>) -> Option<RequestModel> {
    match request {
        Some(r) => Some(r@),
        None => None,
    }
}

impl WriteState {
    /// The start of the writing of a batch.
    fn new(items: Vec<QueuedEvent>) -> (state: Self)
        ensures
            forall|cache: CacheModel| #[trigger]
                state.model(cache) == write_begin(queued_models(items@), cache),
    {
        let state = WriteState {
            items,
            position: 0,
            phase: WritePhase::Begin,
            event_rows: Vec::new(),
            tick_rows: Vec::new(),
            activity: Vec::new(),
        };
        assert forall|cache: CacheModel| #[trigger]
            state.model(cache) == write_begin(queued_models(items@), cache) by {
            assert(state.model(cache) =~= write_begin(queued_models(items@), cache));
        }
        state
    }

    /// The current event with its session known.
    fn with_session(&mut self, cache: &WriterCache, server_id: u64, session_id: u64) -> (r: Option<
        DbRequest,
    >)
        requires
            old(self).position < old(self).items.len(),
        ensures
            (final(self).model(cache@), maybe_request(r)) == with_session(
                old(self).model(cache@),
                server_id,
                session_id,
            ),
    {
        let event = &self.items[self.position].event;
        if same_text(&event.record_type, "session_start") {
            self.phase = WritePhase::StaleList { session_id };
            Some(DbRequest::StaleSessions { server_id, session_id })
        } else if same_text(&event.record_type, "session_end") {
            let request = end_session(event, session_id, false);
            self.phase = WritePhase::SessionUpdated;
            Some(request)
        } else if same_text(&event.record_type, "tick_sample") {
            let row = TickRow::of(event, session_id);
            self.tick_rows.push(row);
            self.position = self.position + 1;
            self.phase = WritePhase::Begin;
            assert(tick_row_models(self.tick_rows@) =~= tick_row_models(old(self).tick_rows@).push(
                row@,
            ));
            None
        } else {
            let row = EventRow::of(event, session_id);
            self.event_rows.push(row);
            self.position = self.position + 1;
            self.phase = WritePhase::Begin;
            assert(event_row_models(self.event_rows@) =~= event_row_models(
                old(self).event_rows@,
            ).push(row@));
            None
        }
    }

    /// The current event with its server known.
    fn with_server(&mut self, cache: &WriterCache, server_id: u64) -> (r: Option<DbRequest>)
        requires
            old(self).position < old(self).items.len(),
        ensures
            (final(self).model(cache@), maybe_request(r)) == with_server(
                old(self).model(cache@),
                server_id,
            ),
    {
        note_activity(&mut self.activity, server_id, &self.items[self.position].event);
        match ensure_session(cache, server_id, &self.items[self.position].event) {
            Ok(session_id) => self.with_session(cache, server_id, session_id),
            Err(request) => {
                self.phase = WritePhase::SessionStored { server_id };
                Some(request)
            },
        }
    }

    /// The signs of life from `at` on are stored, then the rows are inserted.
    fn touch_from(&mut self, cache: &WriterCache, at: usize) -> (r: DbRequest)
        ensures
            (final(self).model(cache@), r@) == touch_from(old(self).model(cache@), at as int),
    {
        if at < self.activity.len() {
            self.phase = WritePhase::ServerTouched { at };
            let activity = &self.activity[at];
            DbRequest::TouchServer {
                server_id: activity.server_id,
                hostname: activity.hostname.clone(),
                host_port: activity.host_port,
                last_seen_at: activity.last_seen_at,
            }
        } else {
            self.phase = WritePhase::EventsInserted;
            let mut events: Vec<EventRow> = Vec::new();
            std::mem::swap(&mut self.event_rows, &mut events);
            assert(event_row_models(self.event_rows@) =~= Seq::empty());
            DbRequest::InsertEvents { events }
        }
    }

    /// Goes through the events from the current one on, up to the first that
    /// needs the database.
    fn advance(&mut self, cache: &WriterCache) -> (r: DbRequest)
        requires
            old(self).position <= old(self).items.len(),
        ensures
            (final(self).model(cache@), r@) == advance(old(self).model(cache@)),
    {
        while self.position < self.items.len()
            invariant
                self.position <= self.items.len(),
                advance(self.model(cache@)) == advance(old(self).model(cache@)),
            decreases self.items.len() - self.position,
        {
            match ensure_server(cache, &self.items[self.position].event) {
                Ok(server_id) => {
                    if let Some(request) = self.with_server(cache, server_id) {
                        return request;
                    }
                },
                Err(request) => {
                    self.phase = WritePhase::ServerStored;
                    return request;
                },
            }
        }
        self.touch_from(cache, 0)
    }

    /// The stale sessions from `at` on are ended, then the start of the new
    /// session is stored.
    fn stale_from(
        &mut self,
        cache: &WriterCache,
        session_id: u64,
        stale: Vec<(u64, i64)>,
        at: usize,
    ) -> (r: DbRequest)
        requires
            old(self).position < old(self).items.len(),
        ensures
            (final(self).model(cache@), r@) == stale_from(
                old(self).model(cache@),
                session_id,
                stale@,
                at as int,
            ),
    {
        if at < stale.len() {
            let id: u64 = stale[at].0;
            self.phase = WritePhase::StaleEvent { session_id, stale, at };
            DbRequest::LastEventAt { session_id: id }
        } else {
            let request = start_session(&self.items[self.position].event, session_id);
            self.phase = WritePhase::SessionUpdated;
            request
        }
    }

    /// Takes the reply to the last request and gives the next one.
    fn step(&mut self, cache: &mut WriterCache, reply: DbReply) -> (request: DbRequest)
        requires
            old(self).model(old(cache)@).well_formed(),
        ensures
            (final(self).model(final(cache)@), request@) == write_step(
                old(self).model(old(cache)@),
                reply@,
            ),
    {
        let mut phase = WritePhase::Begin;
        std::mem::swap(&mut self.phase, &mut phase);
        match phase {
            WritePhase::Begin => self.advance(cache),
            WritePhase::ServerStored => {
                self.phase = WritePhase::ServerId;
                DbRequest::LastInsertId
            },
            WritePhase::ServerId => {
                let id: u64 = reply.id();
                cache.keep_server(&self.items[self.position].event.server_id, id);
                match self.with_server(cache, id) {
                    Some(request) => request,
                    None => self.advance(cache),
                }
            },
            WritePhase::SessionStored { server_id } => {
                self.phase = WritePhase::SessionId { server_id };
                DbRequest::LastInsertId
            },
            WritePhase::SessionId { server_id } => {
                let id: u64 = reply.id();
                cache.keep_session(server_id, &self.items[self.position].event.map_session_id, id);
                match self.with_session(cache, server_id, id) {
                    Some(request) => request,
                    None => self.advance(cache),
                }
            },
            WritePhase::StaleList { session_id } => {
                self.stale_from(cache, session_id, reply.sessions(), 0)
            },
            WritePhase::StaleEvent { session_id, stale, at } => {
                let id: u64 = stale[at].0;
                let last_event: Option<i64> = reply.time();
                self.phase = WritePhase::StaleTick { session_id, stale, at, last_event };
                DbRequest::LastTickAt { session_id: id }
            },
            WritePhase::StaleTick { session_id, stale, at, last_event } => {
                let (id, started_at): (u64, i64) = stale[at];
                let ended_at: i64 = finalize_stale_session(
                    last_event,
                    reply.time(),
                    started_at,
                    self.items[self.position].event.occurred_at,
                );
                self.phase = WritePhase::StaleAggregate { session_id, stale, at, ended_at };
                DbRequest::TickAggregate { session_id: id }
            },
            WritePhase::StaleAggregate { session_id, stale, at, ended_at } => {
                let id: u64 = stale[at].0;
                let (average, minimum, samples): (Option<Rate>, Option<Rate>, u64) =
                    reply.aggregate();
                self.phase = WritePhase::StaleClosed { session_id, stale, at };
                DbRequest::CloseSession { session_id: id, ended_at, average, minimum, samples }
            },
            WritePhase::StaleClosed { session_id, stale, at } => {
                assert(at < stale.len());
                self.stale_from(cache, session_id, stale, at + 1)
            },
            WritePhase::SessionUpdated => {
                assert(self.position < self.items.len());
                self.position = self.position + 1;
                self.advance(cache)
            },
            WritePhase::ServerTouched { at } => {
                assert(at < self.activity.len());
                self.touch_from(cache, at + 1)
            },
            WritePhase::EventsInserted => {
                self.phase = WritePhase::TicksInserted;
                let mut ticks: Vec<TickRow> = Vec::new();
                std::mem::swap(&mut self.tick_rows, &mut ticks);
                assert(tick_row_models(self.tick_rows@) =~= Seq::empty());
                DbRequest::InsertTicks { ticks }
            },
            WritePhase::TicksInserted => {
                self.phase = WritePhase::Committed;
                DbRequest::Commit
            },
            WritePhase::Committed => {
                self.phase = WritePhase::Over;
                DbRequest::Finished
            },
            WritePhase::Over => {
                self.phase = WritePhase::Over;
                DbRequest::Finished
            },
        }
    }
}

/// Going on keeps the places that the run stands at, and forgets no item.
proof fn lemma_advance_well_formed(w: WriteModel)
    requires
        0 <= w.position <= w.items.len(),
    ensures
        advance(w).0.well_formed(),
        advance(w).0.items == w.items,
    decreases w.items.len() - w.position,
{
    if w.position < w.items.len() && w.cache.servers.contains_key(w.current().server_id) {
        let (next, request) = with_server(w, w.cache.servers[w.current().server_id]);
        if request is None {
            lemma_advance_well_formed(next);
        }
    }
}

/// The state from which a step goes through the following events, where it does:
/// the current event is done with, or there is none yet.
pub open spec fn resumed(w: WriteModel, reply: ReplyModel) -> Option<WriteModel> {
    match w.phase {
        PhaseModel::Begin => Some(w),
        PhaseModel::ServerId => {
            let (next, request) = with_server(server_learnt(w, reply_id(reply)), reply_id(reply));
            match request {
                Some(_) => None,
                None => Some(next),
            }
        },
        PhaseModel::SessionId { server_id } => {
            let (next, request) = with_session(
                session_learnt(w, server_id, reply_id(reply)),
                server_id,
                reply_id(reply),
            );
            match request {
                Some(_) => None,
                None => Some(next),
            }
        },
        PhaseModel::SessionUpdated => Some(
            WriteModel { position: w.position + 1, phase: PhaseModel::Begin, ..w },
        ),
        _ => None,
    }
}

/// A step that goes through the following events stands at one of them, or at
/// their end, with no item forgotten.
pub proof fn lemma_resumed(w: WriteModel, reply: ReplyModel)
    requires
        w.well_formed(),
    ensures
        resumed(w, reply) matches Some(next) ==> {
            &&& write_step(w, reply) == advance(next)
            &&& next.items == w.items
            &&& next.position <= next.items.len()
            &&& next.position == if w.phase is Begin {
                w.position
            } else {
                w.position + 1
            }
        },
{
}

/// A step keeps the places that the run stands at, and forgets no item.
pub proof fn lemma_step_well_formed(w: WriteModel, reply: ReplyModel)
    requires
        w.well_formed(),
    ensures
        write_step(w, reply).0.well_formed(),
        write_step(w, reply).0.items == w.items,
{
    lemma_resumed(w, reply);
    if let Some(next) = resumed(w, reply) {
        lemma_advance_well_formed(next);
    }
}

impl WriteRun {
    /// Starts the writing of a batch. The first step takes any reply.
    pub fn new(items: Vec<QueuedEvent>) -> (run: Self)
        ensures
            forall|cache: CacheModel| #[trigger]
                run.model(cache) == write_begin(queued_models(items@), cache),
    {
        WriteRun { state: WriteState::new(items) }
    }

    /// Takes the reply to the last request and gives the next one.
    pub fn step(&mut self, cache: &mut WriterCache, reply: DbReply) -> (request: DbRequest)
        ensures
            (final(self).model(final(cache)@), request@) == write_step(
                old(self).model(old(cache)@),
                reply@,
            ),
    {
        proof {
            use_type_invariant(&*self);
            assert(self.state.model(cache@).well_formed());
            lemma_step_well_formed(self.state.model(cache@), reply@);
        }
        let mut state = WriteState::new(Vec::new());
        std::mem::swap(&mut self.state, &mut state);
        let request = state.step(cache, reply);
        assert forall|other: CacheModel| #[trigger] state.model(other).well_formed() by {
            assert(state.model(cache@).well_formed());
        }
        self.state = state;
        request
    }

    /// Ends the writing and gives the batch back.
    pub fn into_items(self) -> (items: Vec<QueuedEvent>)
        ensures
            forall|cache: CacheModel| (#[trigger] self.model(cache)).items == queued_models(items@),
    {
        self.state.items
    }
}

/// A session whose own end was never sent ends no earlier than it started, and no
/// later than the next one where that started later; and within these bounds
/// no earlier than anything that is known of it.
pub proof fn law_stale_end_is_within(
    last_event: Option<i64>,
    last_tick: Option<i64>,
    started_at: i64,
    next_started_at: i64,
)
    ensures
        ({
            let end = stale_end(last_event, last_tick, started_at, next_started_at);
            &&& started_at <= end
            &&& end <= next_started_at || end == started_at
            &&& last_event matches Some(at) ==> at <= next_started_at ==> at <= end
            &&& last_tick matches Some(at) ==> at <= next_started_at ==> at <= end
        }),
{
}

/// Each stale session is asked for its last event, its last tick sample and the
/// aggregate of its samples, and is then ended accordingly; the next one
/// follows, or the start of the new session.
pub proof fn law_stale_session_is_closed(
    w: WriteModel,
    event: ReplyModel,
    tick: ReplyModel,
    aggregate: ReplyModel,
    closed: ReplyModel,
)
    requires
        w.well_formed(),
        w.phase is StaleEvent,
    ensures
        ({
            let stale = w.phase->StaleEvent_stale;
            let at = w.phase->StaleEvent_at;
            let session_id = w.phase->StaleEvent_session_id;
            let (w1, r1) = write_step(w, event);
            let (w2, r2) = write_step(w1, tick);
            let (w3, r3) = write_step(w2, aggregate);
            &&& r1 == RequestModel::LastTickAt { session_id: stale[at].0 }
            &&& r2 == RequestModel::TickAggregate { session_id: stale[at].0 }
            &&& r3 == (RequestModel::CloseSession {
                session_id: stale[at].0,
                ended_at: stale_end(
                    reply_time(event),
                    reply_time(tick),
                    stale[at].1,
                    w.current().occurred_at,
                ),
                average: reply_aggregate(aggregate).0,
                minimum: reply_aggregate(aggregate).1,
                samples: reply_aggregate(aggregate).2,
            })
            &&& write_step(w3, closed) == stale_from(w, session_id, stale, at + 1)
        }),
{
}

/// When a stale session ended is fixed by what is known of it: with the last thing
/// known, where that lies between its own start and the next one's; with its start
/// where nothing is known, or only what came before; and with the next start where
/// more is known than that allows.
pub proof fn law_stale_end_is_the_last_known(
    last_event: Option<i64>,
    last_tick: Option<i64>,
    started_at: i64,
    next_started_at: i64,
)
    ensures
        ({
            let end = stale_end(last_event, last_tick, started_at, next_started_at);
            &&& end == started_at || last_event is Some || last_tick is Some
            &&& end > started_at ==> {
                ||| last_event matches Some(at) && end <= at
                ||| last_tick matches Some(at) && end <= at
            }
            &&& last_event matches Some(at) ==> at > next_started_at >= started_at ==> end
                == next_started_at
            &&& last_tick matches Some(at) ==> at > next_started_at >= started_at ==> end
                == next_started_at
            &&& next_started_at < started_at ==> end == started_at
        }),
{
}

/// The view of a sign of life holds each of its fields as it is, and that of a list
/// each sign in its place.
pub proof fn law_activity_views(sign: ServerActivity, list: Seq<ServerActivity>, i: int)
    requires
        0 <= i < list.len(),
    ensures
        sign@.server_id == sign.server_id,
        sign@.last_seen_at == sign.last_seen_at,
        sign@.host_port == sign.host_port,
        sign@.hostname == sign.hostname@,
        activity_models(list).len() == list.len(),
        activity_models(list)[i] == list[i]@,
{
}

proof fn lemma_advance_keeps_the_cache(w: WriteModel)
    ensures
        advance(w).0.cache == w.cache,
    decreases w.items.len() - w.position,
{
    if w.position < w.items.len() && w.cache.servers.contains_key(w.current().server_id) {
        let (next, request) = with_server(w, w.cache.servers[w.current().server_id]);
        if request is None {
            lemma_advance_keeps_the_cache(next);
        }
    }
}

/// The identifier that the database gives for a server or a session is the one it
/// is known by from then on, zero where it gives none; and a reply to anything
/// else makes nothing known.
pub proof fn law_identifiers_are_those_of_the_database(
    w: WriteModel,
    reply: ReplyModel,
    id: Option<u64>,
)
    requires
        w.well_formed(),
        reply == ReplyModel::Id(id),
    ensures
        ({
            let after = write_step(w, reply).0.cache;
            let e = w.current();
            let given = match id {
                Some(n) => n,
                None => 0,
            };
            &&& w.phase is ServerId ==> after.servers == w.cache.servers.insert(e.server_id, given)
                && after.sessions == w.cache.sessions
            &&& w.phase matches PhaseModel::SessionId { server_id } ==> after.servers
                == w.cache.servers && after.sessions == w.cache.sessions.insert(
                (server_id, e.map_session_id),
                given,
            )
            &&& !(w.phase is ServerId) && !(w.phase is SessionId) ==> after == w.cache
        }),
{
    lemma_resumed(w, reply);
    if let Some(next) = resumed(w, reply) {
        lemma_advance_keeps_the_cache(next);
    }
}

/// The sessions that the database lists as not ended are ended one after the other,
/// from the first to the last: each is asked for its last event first. The start of
/// the new session is stored behind the last of them, or at once where there is
/// none. No event is passed meanwhile.
pub proof fn law_stale_sessions_are_ended_in_turn(
    w: WriteModel,
    list: Seq<(u64, i64)>,
    reply: ReplyModel,
)
    requires
        w.well_formed(),
    ensures
        w.phase matches PhaseModel::StaleList { session_id: new } ==> {
            let (next, request) = write_step(w, ReplyModel::Sessions(list));
            &&& next.position == w.position
            &&& list.len() > 0 ==> {
                &&& request == (RequestModel::LastEventAt { session_id: list[0].0 })
                &&& next.phase == (PhaseModel::StaleEvent { session_id: new, stale: list, at: 0 })
            }
            &&& list.len() == 0 ==> {
                &&& request matches RequestModel::StartSession { session_id, .. }
                &&& session_id == new
                &&& next.phase is SessionUpdated
            }
        },
        w.phase matches PhaseModel::StaleClosed { session_id: new, stale, at } ==> {
            let (next, request) = write_step(w, reply);
            &&& next.position == w.position
            &&& at + 1 < stale.len() ==> {
                &&& request == (RequestModel::LastEventAt { session_id: stale[at + 1].0 })
                &&& next.phase == (PhaseModel::StaleEvent { session_id: new, stale, at: at + 1 })
            }
            &&& at + 1 == stale.len() ==> {
                &&& request matches RequestModel::StartSession { session_id, .. }
                &&& session_id == new
                &&& next.phase is SessionUpdated
            }
        },
{
}

/// How a stale session is ended: with the last time that the database knows of its
/// events and samples, kept between its own start and that of the new one, and with
/// the aggregate of its samples as the database gave it.
pub proof fn law_stale_sessions_end_as_the_database_knows(
    w: WriteModel,
    last_event: Option<i64>,
    last_tick: Option<i64>,
    given: (Option<Rate>, Option<Rate>, u64),
)
    requires
        w.well_formed(),
        w.phase is StaleEvent,
    ensures
        ({
            let stale = w.phase->StaleEvent_stale;
            let at = w.phase->StaleEvent_at;
            let start = stale[at].1;
            let next = w.items[w.position].event.occurred_at;
            let (w1, r1) = write_step(w, ReplyModel::Time(last_event));
            let (w2, r2) = write_step(w1, ReplyModel::Time(last_tick));
            let (w3, r3) = write_step(w2, ReplyModel::Aggregate(Some(given)));
            &&& r1 == (RequestModel::LastTickAt { session_id: stale[at].0 })
            &&& r2 == (RequestModel::TickAggregate { session_id: stale[at].0 })
            &&& r3 matches RequestModel::CloseSession {
                session_id,
                ended_at,
                average,
                minimum,
                samples,
            }
            &&& session_id == stale[at].0
            &&& average == given.0
            &&& minimum == given.1
            &&& samples == given.2
            &&& start <= ended_at
            &&& ended_at <= next || ended_at == start
            &&& last_event matches Some(e) ==> e <= next ==> e <= ended_at
            &&& last_tick matches Some(t) ==> t <= next ==> t <= ended_at
            &&& last_event matches Some(e) ==> e > next >= start ==> ended_at == next
            &&& last_tick matches Some(t) ==> t > next >= start ==> ended_at == next
            &&& ended_at > start ==> {
                ||| last_event matches Some(e) && ended_at <= e
                ||| last_tick matches Some(t) && ended_at <= t
            }
            &&& w3.phase == (PhaseModel::StaleClosed {
                session_id: w.phase->StaleEvent_session_id,
                stale,
                at,
            })
            &&& w3.position == w.position
        }),
{
}

/// What is stored is asked for its identifier, and behind the rows of events come
/// those of the tick samples, the commit, and nothing more.
pub proof fn law_what_follows_a_request(w: WriteModel, reply: ReplyModel)
    requires
        w.well_formed(),
    ensures
        ({
            let (next, request) = write_step(w, reply);
            &&& w.phase is ServerStored ==> request is LastInsertId && next.phase is ServerId
            &&& w.phase matches PhaseModel::SessionStored { server_id } ==> request is LastInsertId
                && next.phase == (PhaseModel::SessionId { server_id })
            &&& w.phase is EventsInserted ==> next.phase is TicksInserted && request == (
            RequestModel::InsertTicks { ticks: w.tick_rows })
            &&& w.phase is TicksInserted ==> request is Commit && next.phase is Committed
            &&& w.phase is Committed ==> request is Finished && next.phase is Over
            &&& w.phase is Over ==> request is Finished && next == w
            &&& next.items == w.items
        }),
{
    lemma_step_well_formed(w, reply);
}

} // verus!
