//! What the writing of a batch comes to, whatever the database replies.

use crate::database::{
    end_session_request, event_row, reply_id, start_session_request, tick_row, upsert_server,
    upsert_session, CacheModel, EventRowModel, ReplyModel, RequestModel, TickRowModel,
};
use crate::event::EventModel;
use crate::queue::QueuedModel;
use crate::writer::{
    activity_index, advance, lemma_resumed, lemma_step_well_formed, resumed, seen_active,
    server_learnt, session_learnt, sign_of_life, touch_from, with_server, with_session,
    write_begin, write_step, ActivityModel, PhaseModel, WriteModel,
};
use vstd::prelude::*;

verus! {

/// The writing of `items` after the replies `replies`.
pub open spec fn write_run(
    items: Seq<QueuedModel>,
    cache: CacheModel,
    replies: Seq<ReplyModel>,
) -> WriteModel
    decreases replies.len(),
{
    if replies.len() == 0 {
        write_begin(items, cache)
    } else {
        write_step(write_run(items, cache, replies.drop_last()), replies.last()).0
    }
}

/// The request that answers the last of `replies`.
pub open spec fn last_request(
    items: Seq<QueuedModel>,
    cache: CacheModel,
    replies: Seq<ReplyModel>,
) -> RequestModel {
    write_step(write_run(items, cache, replies.drop_last()), replies.last()).1
}

/// The server and the session of an event are known.
pub open spec fn known(cache: CacheModel, e: EventModel) -> bool {
    &&& cache.servers.contains_key(e.server_id)
    &&& cache.sessions.contains_key((cache.servers[e.server_id], e.map_session_id))
}

/// The session of an event.
pub open spec fn session_of(cache: CacheModel, e: EventModel) -> u64 {
    cache.sessions[(cache.servers[e.server_id], e.map_session_id)]
}

/// The event starts or ends a session.
pub open spec fn is_session_record(e: EventModel) -> bool {
    e.record_type == "session_start"@ || e.record_type == "session_end"@
}

/// The event is a tick sample.
pub open spec fn is_tick_record(e: EventModel) -> bool {
    !is_session_record(e) && e.record_type == "tick_sample"@
}

/// The event is none of these.
pub open spec fn is_event_record(e: EventModel) -> bool {
    !is_session_record(e) && !is_tick_record(e)
}

/// The rows of the events among `items`, each under its own session.
pub open spec fn event_rows_of(items: Seq<QueuedModel>, cache: CacheModel) -> Seq<EventRowModel>
    decreases items.len(),
{
    if items.len() == 0 {
        Seq::empty()
    } else {
        let rows = event_rows_of(items.drop_last(), cache);
        let e = items.last().event;
        if is_event_record(e) {
            rows.push(event_row(e, session_of(cache, e)))
        } else {
            rows
        }
    }
}

/// The rows of the tick samples among `items`, each under its own session.
pub open spec fn tick_rows_of(items: Seq<QueuedModel>, cache: CacheModel) -> Seq<TickRowModel>
    decreases items.len(),
{
    if items.len() == 0 {
        Seq::empty()
    } else {
        let rows = tick_rows_of(items.drop_last(), cache);
        let e = items.last().event;
        if is_tick_record(e) {
            rows.push(tick_row(e, session_of(cache, e)))
        } else {
            rows
        }
    }
}

/// The signs of life that `items` are.
pub open spec fn activity_of(items: Seq<QueuedModel>, cache: CacheModel) -> Seq<ActivityModel>
    decreases items.len(),
{
    if items.len() == 0 {
        Seq::empty()
    } else {
        let e = items.last().event;
        seen_active(activity_of(items.drop_last(), cache), cache.servers[e.server_id], e)
    }
}

/// `larger` knows what `cache` knows.
spec fn extends(cache: CacheModel, larger: CacheModel) -> bool {
    &&& forall|k: Seq<char>| #[trigger]
        cache.servers.contains_key(k) ==> larger.servers.contains_key(k) && larger.servers[k]
            == cache.servers[k]
    &&& forall|k: (u64, Seq<char>)| #[trigger]
        cache.sessions.contains_key(k) ==> larger.sessions.contains_key(k) && larger.sessions[k]
            == cache.sessions[k]
}

/// Every event of `items` has its server known.
spec fn servers_known(items: Seq<QueuedModel>, cache: CacheModel) -> bool {
    forall|i: int|
        0 <= i < items.len() ==> cache.servers.contains_key((#[trigger] items[i]).event.server_id)
}

/// Every event of `items` has its server and session known.
spec fn all_known(items: Seq<QueuedModel>, cache: CacheModel) -> bool {
    forall|i: int| 0 <= i < items.len() ==> known(cache, (#[trigger] items[i]).event)
}

proof fn lemma_rows_stay(items: Seq<QueuedModel>, cache: CacheModel, larger: CacheModel)
    requires
        extends(cache, larger),
        all_known(items, cache),
    ensures
        all_known(items, larger),
        event_rows_of(items, larger) == event_rows_of(items, cache),
        tick_rows_of(items, larger) == tick_rows_of(items, cache),
    decreases items.len(),
{
    if items.len() > 0 {
        assert(known(cache, items[items.len() - 1].event));
        assert forall|i: int| 0 <= i < items.drop_last().len() implies known(
            cache,
            (#[trigger] items.drop_last()[i]).event,
        ) by {
            assert(items.drop_last()[i] == items[i]);
        }
        lemma_rows_stay(items.drop_last(), cache, larger);
        assert forall|i: int| 0 <= i < items.len() implies known(
            larger,
            (#[trigger] items[i]).event,
        ) by {
            assert(known(cache, items[i].event));
        }
    }
}

proof fn lemma_activity_stays(items: Seq<QueuedModel>, cache: CacheModel, larger: CacheModel)
    requires
        extends(cache, larger),
        servers_known(items, cache),
    ensures
        servers_known(items, larger),
        activity_of(items, larger) == activity_of(items, cache),
    decreases items.len(),
{
    if items.len() > 0 {
        assert(cache.servers.contains_key(items[items.len() - 1].event.server_id));
        assert forall|i: int| 0 <= i < items.drop_last().len() implies cache.servers.contains_key(
            (#[trigger] items.drop_last()[i]).event.server_id,
        ) by {
            assert(items.drop_last()[i] == items[i]);
        }
        lemma_activity_stays(items.drop_last(), cache, larger);
    }
}

/// The rows of the items before the current one are collected.
spec fn rows_collected(w: WriteModel) -> bool {
    let past = w.items.take(w.position);
    &&& all_known(past, w.cache)
    &&& w.event_rows == event_rows_of(past, w.cache)
    &&& w.tick_rows == tick_rows_of(past, w.cache)
}

/// The signs of life of the first `n` items are collected.
spec fn activity_collected(w: WriteModel, n: int) -> bool {
    &&& servers_known(w.items.take(n), w.cache)
    &&& w.activity == activity_of(w.items.take(n), w.cache)
}

/// The current event is known, and `session_id` is its session.
spec fn current_session(w: WriteModel, session_id: u64) -> bool {
    &&& known(w.cache, w.current())
    &&& session_id == session_of(w.cache, w.current())
}

/// What holds of a run at each of its phases.
spec fn on_track(w: WriteModel) -> bool {
    &&& w.well_formed()
    &&& match w.phase {
        PhaseModel::Begin => rows_collected(w) && activity_collected(w, w.position),
        PhaseModel::ServerStored | PhaseModel::ServerId => {
            &&& rows_collected(w)
            &&& activity_collected(w, w.position)
            &&& !w.cache.servers.contains_key(w.current().server_id)
        },
        PhaseModel::SessionStored { server_id } | PhaseModel::SessionId { server_id } => {
            &&& rows_collected(w)
            &&& activity_collected(w, w.position + 1)
            &&& w.cache.servers.contains_key(w.current().server_id)
            &&& w.cache.servers[w.current().server_id] == server_id
            &&& !w.cache.sessions.contains_key((server_id, w.current().map_session_id))
        },
        PhaseModel::StaleList { session_id }
        | PhaseModel::StaleEvent { session_id, .. }
        | PhaseModel::StaleTick { session_id, .. }
        | PhaseModel::StaleAggregate { session_id, .. }
        | PhaseModel::StaleClosed { session_id, .. } => {
            &&& rows_collected(w)
            &&& activity_collected(w, w.position + 1)
            &&& current_session(w, session_id)
            &&& w.current().record_type == "session_start"@
        },
        PhaseModel::SessionUpdated => {
            &&& rows_collected(w)
            &&& activity_collected(w, w.position + 1)
            &&& known(w.cache, w.current())
            &&& is_session_record(w.current())
        },
        PhaseModel::ServerTouched { .. } => {
            &&& w.position == w.items.len()
            &&& rows_collected(w)
            &&& activity_collected(w, w.position)
        },
        PhaseModel::EventsInserted => {
            &&& w.position == w.items.len()
            &&& w.tick_rows == tick_rows_of(w.items, w.cache)
        },
        _ => true,
    }
}

/// What holds of the request that a step from `w` on gives.
spec fn request_fits(w: WriteModel, request: RequestModel) -> bool {
    match request {
        RequestModel::InsertEvents { events } => events == event_rows_of(w.items, w.cache),
        RequestModel::InsertTicks { ticks } => ticks == tick_rows_of(w.items, w.cache),
        RequestModel::UpsertServer { .. } => {
            &&& w.position < w.items.len()
            &&& request == upsert_server(w.current())
            &&& !w.cache.servers.contains_key(w.current().server_id)
        },
        RequestModel::UpsertSession { .. } => {
            &&& w.position < w.items.len()
            &&& w.cache.servers.contains_key(w.current().server_id)
            &&& request == upsert_session(
                w.current(),
                w.cache.servers[w.current().server_id],
            )
            &&& !w.cache.sessions.contains_key(
                (w.cache.servers[w.current().server_id], w.current().map_session_id),
            )
        },
        RequestModel::StaleSessions { server_id, session_id } => {
            &&& w.position < w.items.len()
            &&& w.current().record_type == "session_start"@
            &&& known(w.cache, w.current())
            &&& server_id == w.cache.servers[w.current().server_id]
            &&& session_id == session_of(w.cache, w.current())
        },
        _ => true,
    }
}

proof fn lemma_take_next(items: Seq<QueuedModel>, n: int)
    requires
        0 <= n < items.len(),
    ensures
        items.take(n + 1).drop_last() == items.take(n),
        items.take(n + 1).last() == items[n],
        items.take(n + 1).len() == n + 1,
{
    assert(items.take(n + 1).drop_last() =~= items.take(n));
}

/// The rows with one more item that is known.
proof fn lemma_rows_next(w: WriteModel, next: WriteModel)
    requires
        0 <= w.position < w.items.len(),
        rows_collected(w),
        known(w.cache, w.current()),
        next.items == w.items,
        next.cache == w.cache,
        next.position == w.position + 1,
        next.event_rows == if is_event_record(w.current()) {
            w.event_rows.push(event_row(w.current(), session_of(w.cache, w.current())))
        } else {
            w.event_rows
        },
        next.tick_rows == if is_tick_record(w.current()) {
            w.tick_rows.push(tick_row(w.current(), session_of(w.cache, w.current())))
        } else {
            w.tick_rows
        },
    ensures
        rows_collected(next),
{
    lemma_take_next(w.items, w.position);
    let past = w.items.take(w.position);
    let more = w.items.take(w.position + 1);
    assert forall|i: int| 0 <= i < more.len() implies known(
        w.cache,
        (#[trigger] more[i]).event,
    ) by {
        if i < w.position {
            assert(more[i] == past[i]);
        }
    }
}

proof fn lemma_activity_next(w: WriteModel, server_id: u64)
    requires
        0 <= w.position < w.items.len(),
        activity_collected(w, w.position),
        w.cache.servers.contains_key(w.current().server_id),
        w.cache.servers[w.current().server_id] == server_id,
    ensures
        activity_collected(
            WriteModel { activity: seen_active(w.activity, server_id, w.current()), ..w },
            w.position + 1,
        ),
{
    lemma_take_next(w.items, w.position);
    let past = w.items.take(w.position);
    let more = w.items.take(w.position + 1);
    assert forall|i: int| 0 <= i < more.len() implies w.cache.servers.contains_key(
        (#[trigger] more[i]).event.server_id,
    ) by {
        if i < w.position {
            assert(more[i] == past[i]);
        }
    }
}

proof fn lemma_with_session(w: WriteModel, server_id: u64, session_id: u64)
    requires
        0 <= w.position < w.items.len(),
        rows_collected(w),
        activity_collected(w, w.position + 1),
        current_session(w, session_id),
        w.cache.servers[w.current().server_id] == server_id,
    ensures
        ({
            let (next, request) = with_session(w, server_id, session_id);
            &&& on_track(next)
            &&& next.items == w.items
            &&& next.cache == w.cache
            &&& request is Some ==> request_fits(next, request->0)
            &&& request is None ==> next.phase is Begin && next.position == w.position + 1
        }),
{
    let (next, request) = with_session(w, server_id, session_id);
    if request is None {
        lemma_rows_next(w, next);
    } else {
        assert(next.items.take(next.position) == w.items.take(w.position));
    }
}

proof fn lemma_with_server(w: WriteModel, server_id: u64)
    requires
        0 <= w.position < w.items.len(),
        rows_collected(w),
        activity_collected(w, w.position),
        w.cache.servers.contains_key(w.current().server_id),
        w.cache.servers[w.current().server_id] == server_id,
    ensures
        ({
            let (next, request) = with_server(w, server_id);
            &&& on_track(next)
            &&& next.items == w.items
            &&& next.cache == w.cache
            &&& request is Some ==> request_fits(next, request->0)
            &&& request is None ==> next.phase is Begin && next.position == w.position + 1
        }),
{
    let seen = WriteModel { activity: seen_active(w.activity, server_id, w.current()), ..w };
    lemma_activity_next(w, server_id);
    let key = (server_id, w.current().map_session_id);
    if w.cache.sessions.contains_key(key) {
        lemma_with_session(seen, server_id, w.cache.sessions[key]);
    }
}

proof fn lemma_touch_from(w: WriteModel, at: int)
    requires
        w.position == w.items.len(),
        rows_collected(w),
        activity_collected(w, w.position),
        0 <= at,
    ensures
        on_track(touch_from(w, at).0),
        request_fits(touch_from(w, at).0, touch_from(w, at).1),
        touch_from(w, at).0.items == w.items,
        touch_from(w, at).0.cache == w.cache,
{
    assert(w.items.take(w.position) =~= w.items);
}

proof fn lemma_advance(w: WriteModel)
    requires
        0 <= w.position <= w.items.len(),
        rows_collected(w),
        activity_collected(w, w.position),
    ensures
        on_track(advance(w).0),
        request_fits(advance(w).0, advance(w).1),
        advance(w).0.items == w.items,
        advance(w).0.cache == w.cache,
    decreases w.items.len() - w.position,
{
    if w.position == w.items.len() {
        lemma_touch_from(w, 0);
    } else if w.cache.servers.contains_key(w.current().server_id) {
        let (next, request) = with_server(w, w.cache.servers[w.current().server_id]);
        lemma_with_server(w, w.cache.servers[w.current().server_id]);
        if request is None {
            lemma_advance(next);
        }
    }
}

/// Whether a step goes through the following events or asks for the current one,
/// the run is on track at that point.
proof fn lemma_resumed_on_track(w: WriteModel, reply: ReplyModel)
    requires
        on_track(w),
    ensures
        match resumed(w, reply) {
            Some(next) => {
                &&& write_step(w, reply) == advance(next)
                &&& 0 <= next.position <= next.items.len()
                &&& rows_collected(next)
                &&& activity_collected(next, next.position)
                &&& next.items == w.items
                &&& extends(w.cache, next.cache)
            },
            None => w.within_item() ==> {
                &&& on_track(write_step(w, reply).0)
                &&& request_fits(write_step(w, reply).0, write_step(w, reply).1)
                &&& write_step(w, reply).0.items == w.items
                &&& extends(w.cache, write_step(w, reply).0.cache)
            },
        },
{
    lemma_resumed(w, reply);
    let id = reply_id(reply);
    match w.phase {
        PhaseModel::ServerId => {
            let more = server_learnt(w, id);
            lemma_rows_stay(w.items.take(w.position), w.cache, more.cache);
            lemma_activity_stays(w.items.take(w.position), w.cache, more.cache);
            lemma_with_server(more, id);
        },
        PhaseModel::SessionId { server_id } => {
            let more = session_learnt(w, server_id, id);
            lemma_rows_stay(w.items.take(w.position), w.cache, more.cache);
            lemma_activity_stays(w.items.take(w.position + 1), w.cache, more.cache);
            lemma_with_session(more, server_id, id);
        },
        PhaseModel::SessionUpdated => lemma_rows_next(w, resumed(w, reply)->0),
        _ => {},
    }
}

/// A step keeps a run on track, and gives a request that fits.
proof fn lemma_step(w: WriteModel, reply: ReplyModel)
    requires
        on_track(w),
    ensures
        on_track(write_step(w, reply).0),
        request_fits(write_step(w, reply).0, write_step(w, reply).1),
        write_step(w, reply).0.items == w.items,
        extends(w.cache, write_step(w, reply).0.cache),
{
    lemma_resumed_on_track(w, reply);
    match resumed(w, reply) {
        Some(next) => lemma_advance(next),
        None => match w.phase {
            PhaseModel::ServerTouched { at } => lemma_touch_from(w, at + 1),
            _ => {},
        },
    }
}

proof fn lemma_run(items: Seq<QueuedModel>, cache: CacheModel, replies: Seq<ReplyModel>)
    ensures
        on_track(write_run(items, cache, replies)),
        write_run(items, cache, replies).items == items,
        extends(cache, write_run(items, cache, replies).cache),
    decreases replies.len(),
{
    if replies.len() == 0 {
        assert(items.take(0) =~= Seq::empty());
    } else {
        lemma_run(items, cache, replies.drop_last());
        lemma_step(write_run(items, cache, replies.drop_last()), replies.last());
    }
}

/// The requests that store the starts and ends of sessions among `items`, each
/// under its own session.
pub open spec fn session_requests_of(items: Seq<QueuedModel>, cache: CacheModel) -> Seq<
    RequestModel,
>
    decreases items.len(),
{
    if items.len() == 0 {
        Seq::empty()
    } else {
        let requests = session_requests_of(items.drop_last(), cache);
        let e = items.last().event;
        if e.record_type == "session_start"@ {
            requests.push(start_session_request(e, session_of(cache, e)))
        } else if e.record_type == "session_end"@ {
            requests.push(end_session_request(e, session_of(cache, e), false))
        } else {
            requests
        }
    }
}

/// The request stores the start or the end of a session.
pub open spec fn stores_session(request: RequestModel) -> bool {
    request is StartSession || request is EndSession
}

/// The requests that have stored the start or the end of a session.
pub open spec fn sessions_stored(
    items: Seq<QueuedModel>,
    cache: CacheModel,
    replies: Seq<ReplyModel>,
) -> Seq<RequestModel>
    decreases replies.len(),
{
    if replies.len() == 0 {
        Seq::empty()
    } else {
        let earlier = sessions_stored(items, cache, replies.drop_last());
        let request = last_request(items, cache, replies);
        if stores_session(request) {
            earlier.push(request)
        } else {
            earlier
        }
    }
}

proof fn lemma_sessions_stay(items: Seq<QueuedModel>, cache: CacheModel, larger: CacheModel)
    requires
        extends(cache, larger),
        all_known(items, cache),
    ensures
        session_requests_of(items, larger) == session_requests_of(items, cache),
    decreases items.len(),
{
    if items.len() > 0 {
        assert(known(cache, items[items.len() - 1].event));
        assert forall|i: int| 0 <= i < items.drop_last().len() implies known(
            cache,
            (#[trigger] items.drop_last()[i]).event,
        ) by {
            assert(items.drop_last()[i] == items[i]);
        }
        lemma_sessions_stay(items.drop_last(), cache, larger);
    }
}

/// How many items have had their session stored, where they ask for it.
spec fn items_settled(w: WriteModel) -> int {
    if w.phase is SessionUpdated {
        w.position + 1
    } else {
        w.position
    }
}

/// `done` are the requests that the settled items ask for.
spec fn sessions_settled(w: WriteModel, done: Seq<RequestModel>) -> bool {
    done == session_requests_of(w.items.take(items_settled(w)), w.cache)
}

/// `done`, and `request` where it stores a session.
spec fn noted(done: Seq<RequestModel>, request: RequestModel) -> Seq<RequestModel> {
    if stores_session(request) {
        done.push(request)
    } else {
        done
    }
}

proof fn lemma_with_session_settles(
    w: WriteModel,
    server_id: u64,
    session_id: u64,
    done: Seq<RequestModel>,
)
    requires
        0 <= w.position < w.items.len(),
        current_session(w, session_id),
        done == session_requests_of(w.items.take(w.position), w.cache),
    ensures
        ({
            let (next, request) = with_session(w, server_id, session_id);
            &&& request is Some ==> sessions_settled(next, noted(done, request->0))
            &&& request is None ==> sessions_settled(next, done)
        }),
{
    lemma_take_next(w.items, w.position);
    reveal_strlit("session_start");
    reveal_strlit("session_end");
    assert("session_start"@.len() != "session_end"@.len());
}

proof fn lemma_with_server_settles(w: WriteModel, server_id: u64, done: Seq<RequestModel>)
    requires
        0 <= w.position < w.items.len(),
        w.cache.servers.contains_key(w.current().server_id),
        w.cache.servers[w.current().server_id] == server_id,
        done == session_requests_of(w.items.take(w.position), w.cache),
    ensures
        ({
            let (next, request) = with_server(w, server_id);
            &&& request is Some ==> sessions_settled(next, noted(done, request->0))
            &&& request is None ==> sessions_settled(next, done)
        }),
{
    let seen = WriteModel { activity: seen_active(w.activity, server_id, w.current()), ..w };
    let key = (server_id, w.current().map_session_id);
    if w.cache.sessions.contains_key(key) {
        lemma_with_session_settles(seen, server_id, w.cache.sessions[key], done);
    }
}

proof fn lemma_advance_settles(w: WriteModel, done: Seq<RequestModel>)
    requires
        0 <= w.position <= w.items.len(),
        done == session_requests_of(w.items.take(w.position), w.cache),
    ensures
        sessions_settled(advance(w).0, noted(done, advance(w).1)),
    decreases w.items.len() - w.position,
{
    if w.position < w.items.len() && w.cache.servers.contains_key(w.current().server_id) {
        let server_id = w.cache.servers[w.current().server_id];
        let (next, request) = with_server(w, server_id);
        lemma_with_server_settles(w, server_id, done);
        if request is None {
            lemma_advance_settles(next, done);
        }
    }
}

proof fn lemma_step_settles(w: WriteModel, reply: ReplyModel, done: Seq<RequestModel>)
    requires
        on_track(w),
        sessions_settled(w, done),
    ensures
        sessions_settled(write_step(w, reply).0, noted(done, write_step(w, reply).1)),
{
    lemma_resumed_on_track(w, reply);
    let id = reply_id(reply);
    match w.phase {
        PhaseModel::ServerId => {
            let more = server_learnt(w, id);
            lemma_sessions_stay(w.items.take(w.position), w.cache, more.cache);
            lemma_with_server_settles(more, id, done);
        },
        PhaseModel::SessionId { server_id } => {
            let more = session_learnt(w, server_id, id);
            lemma_sessions_stay(w.items.take(w.position), w.cache, more.cache);
            lemma_with_session_settles(more, server_id, id, done);
        },
        PhaseModel::StaleList { .. } | PhaseModel::StaleClosed { .. } => lemma_take_next(
            w.items,
            w.position,
        ),
        _ => {},
    }
    if let Some(next) = resumed(w, reply) {
        lemma_advance_settles(next, done);
    }
}

proof fn lemma_run_settles(items: Seq<QueuedModel>, cache: CacheModel, replies: Seq<ReplyModel>)
    ensures
        sessions_settled(
            write_run(items, cache, replies),
            sessions_stored(items, cache, replies),
        ),
    decreases replies.len(),
{
    if replies.len() == 0 {
        assert(items.take(0) =~= Seq::empty());
    } else {
        let before = write_run(items, cache, replies.drop_last());
        lemma_run(items, cache, replies.drop_last());
        lemma_run_settles(items, cache, replies.drop_last());
        lemma_step_settles(
            before,
            replies.last(),
            sessions_stored(items, cache, replies.drop_last()),
        );
    }
}

/// Whatever the database replies, the rows that a batch inserts are those of
/// its events and of its tick samples, in the order of the batch, each under
/// the session of its own event.
pub proof fn law_rows_are_those_of_the_batch(
    items: Seq<QueuedModel>,
    cache: CacheModel,
    replies: Seq<ReplyModel>,
)
    requires
        replies.len() > 0,
    ensures
        match last_request(items, cache, replies) {
            RequestModel::InsertEvents { events } => events == event_rows_of(
                items,
                write_run(items, cache, replies).cache,
            ),
            RequestModel::InsertTicks { ticks } => ticks == tick_rows_of(
                items,
                write_run(items, cache, replies).cache,
            ),
            _ => true,
        },
{
    lemma_run(items, cache, replies.drop_last());
    lemma_step(write_run(items, cache, replies.drop_last()), replies.last());
}

/// Before a batch inserts its rows, it has stored the start and the end of each
/// session that it holds, in the order of the batch, each once.
pub proof fn law_sessions_are_stored_before_the_rows(
    items: Seq<QueuedModel>,
    cache: CacheModel,
    replies: Seq<ReplyModel>,
)
    requires
        replies.len() > 0,
        last_request(items, cache, replies) is InsertEvents,
    ensures
        sessions_stored(items, cache, replies) == session_requests_of(
            items,
            write_run(items, cache, replies).cache,
        ),
{
    lemma_run(items, cache, replies.drop_last());
    lemma_run(items, cache, replies);
    lemma_run_settles(items, cache, replies);
    lemma_request_phase(write_run(items, cache, replies.drop_last()), replies.last());
    assert(items.take(items.len() as int) =~= items);
}

/// Every item of a batch has one place: a row of an event, a row of a tick
/// sample, or the start or end of a session.
pub proof fn law_every_item_has_one_place(items: Seq<QueuedModel>, cache: CacheModel)
    ensures
        event_rows_of(items, cache).len() + tick_rows_of(items, cache).len()
            + session_requests_of(items, cache).len() == items.len(),
    decreases items.len(),
{
    if items.len() > 0 {
        law_every_item_has_one_place(items.drop_last(), cache);
    }
}

/// Whatever the database replies, a run holds the batch that it was given, all of
/// it and in its order.
pub proof fn law_run_keeps_the_batch(
    items: Seq<QueuedModel>,
    cache: CacheModel,
    replies: Seq<ReplyModel>,
)
    ensures
        write_run(items, cache, replies).items == items,
{
    lemma_run(items, cache, replies);
}

/// Whatever the database replies, what the cache knew stays as it was.
pub proof fn law_writing_forgets_nothing(
    items: Seq<QueuedModel>,
    cache: CacheModel,
    replies: Seq<ReplyModel>,
    e: EventModel,
)
    requires
        known(cache, e),
    ensures
        known(write_run(items, cache, replies).cache, e),
        session_of(write_run(items, cache, replies).cache, e) == session_of(cache, e),
{
    lemma_run(items, cache, replies);
}

proof fn lemma_advance_phase(w: WriteModel)
    requires
        0 <= w.position <= w.items.len(),
    ensures
        advance(w).1 is InsertEvents <==> advance(w).0.phase is EventsInserted,
        advance(w).0.phase is EventsInserted ==> advance(w).0.position == w.items.len(),
        !(advance(w).1 is InsertTicks) && !(advance(w).1 is Commit) && !(advance(w).1 is Finished),
        !(advance(w).0.phase is TicksInserted) && !(advance(w).0.phase is Committed) && !(advance(
            w,
        ).0.phase is Over),
    decreases w.items.len() - w.position,
{
    if w.position < w.items.len() && w.cache.servers.contains_key(w.current().server_id) {
        let (next, request) = with_server(w, w.cache.servers[w.current().server_id]);
        if request is None {
            lemma_advance_phase(next);
        }
    }
}

/// A request and the phase that awaits its reply go together.
proof fn lemma_request_phase(w: WriteModel, reply: ReplyModel)
    requires
        on_track(w),
    ensures
        ({
            let (next, request) = write_step(w, reply);
            &&& request is InsertEvents <==> next.phase is EventsInserted
            &&& request is InsertEvents ==> next.position == w.items.len()
            &&& next.phase is TicksInserted <==> w.phase is EventsInserted
            &&& request is InsertTicks <==> next.phase is TicksInserted
            &&& request is Commit <==> next.phase is Committed
            &&& request is Commit <==> w.phase is TicksInserted
            &&& request is Finished <==> next.phase is Over
            &&& next.phase is Over <==> (w.phase is Committed || w.phase is Over)
        }),
{
    lemma_resumed(w, reply);
    if let Some(next) = resumed(w, reply) {
        lemma_advance_phase(next);
    }
}

/// A batch is committed right after its tick samples were inserted, these right
/// after its events, and it is over only once it was committed.
pub proof fn law_commit_comes_last(
    items: Seq<QueuedModel>,
    cache: CacheModel,
    replies: Seq<ReplyModel>,
)
    requires
        replies.len() > 0,
    ensures
        last_request(items, cache, replies) is Commit ==> replies.len() > 1 && last_request(
            items,
            cache,
            replies.drop_last(),
        ) is InsertTicks,
        last_request(items, cache, replies) is InsertTicks ==> replies.len() > 1 && last_request(
            items,
            cache,
            replies.drop_last(),
        ) is InsertEvents,
        last_request(items, cache, replies) is Finished ==> replies.len() > 1 && (last_request(
            items,
            cache,
            replies.drop_last(),
        ) is Commit || last_request(items, cache, replies.drop_last()) is Finished),
{
    let earlier = replies.drop_last();
    lemma_run(items, cache, earlier);
    lemma_request_phase(write_run(items, cache, earlier), replies.last());
    if earlier.len() > 0 {
        lemma_run(items, cache, earlier.drop_last());
        lemma_request_phase(write_run(items, cache, earlier.drop_last()), earlier.last());
    }
}

/// The place of a server is the first that holds it.
proof fn lemma_activity_place(list: Seq<ActivityModel>, server_id: u64)
    ensures
        0 <= activity_index(list, server_id) <= list.len(),
        activity_index(list, server_id) < list.len() ==> list[activity_index(
            list,
            server_id,
        )].server_id == server_id,
        forall|j: int|
            0 <= j < activity_index(list, server_id) ==> (#[trigger] list[j]).server_id
                != server_id,
    decreases list.len(),
{
    if list.len() > 0 && list[0].server_id != server_id {
        let rest = list.skip(1);
        lemma_activity_place(rest, server_id);
        assert forall|j: int| 0 <= j < activity_index(list, server_id) implies (
        #[trigger] list[j]).server_id != server_id by {
            if j > 0 {
                assert(list[j] == rest[j - 1]);
            }
        }
    }
}

/// No server shows two signs of life.
pub open spec fn one_sign_each(list: Seq<ActivityModel>) -> bool {
    forall|a: int, b: int|
        0 <= a < b < list.len() ==> (#[trigger] list[a]).server_id != (
        #[trigger] list[b]).server_id
}

/// `sign` is the sign of life of one of `items`.
pub open spec fn sign_of_some(
    sign: ActivityModel,
    items: Seq<QueuedModel>,
    cache: CacheModel,
) -> bool {
    exists|i: int|
        0 <= i < items.len() && sign == sign_of_life(
            (#[trigger] items[i]).event,
            cache.servers[items[i].event.server_id],
        )
}

/// One of `list` is a sign of life of the server of `e`, and no earlier than `e`.
pub open spec fn sign_no_earlier(
    list: Seq<ActivityModel>,
    e: EventModel,
    cache: CacheModel,
) -> bool {
    exists|a: int|
        0 <= a < list.len() && (#[trigger] list[a]).server_id == cache.servers[e.server_id]
            && e.occurred_at <= list[a].last_seen_at
}

proof fn lemma_one_sign_each(items: Seq<QueuedModel>, cache: CacheModel)
    ensures
        one_sign_each(activity_of(items, cache)),
    decreases items.len(),
{
    if items.len() > 0 {
        let e = items.last().event;
        lemma_one_sign_each(items.drop_last(), cache);
        lemma_activity_place(activity_of(items.drop_last(), cache), cache.servers[e.server_id]);
    }
}

proof fn lemma_signs_of_items(items: Seq<QueuedModel>, cache: CacheModel, a: int)
    requires
        0 <= a < activity_of(items, cache).len(),
    ensures
        sign_of_some(activity_of(items, cache)[a], items, cache),
    decreases items.len(),
{
    if items.len() > 0 {
        let past = items.drop_last();
        let before = activity_of(past, cache);
        let e = items[items.len() - 1].event;
        let server_id = cache.servers[e.server_id];
        lemma_activity_place(before, server_id);
        if activity_of(items, cache)[a] != sign_of_life(e, server_id) {
            lemma_signs_of_items(past, cache, a);
            let i = choose|i: int|
                0 <= i < past.len() && before[a] == sign_of_life(
                    (#[trigger] past[i]).event,
                    cache.servers[past[i].event.server_id],
                );
            assert(items[i] == past[i]);
        }
    }
}

proof fn lemma_no_later_items(items: Seq<QueuedModel>, cache: CacheModel, i: int)
    requires
        0 <= i < items.len(),
    ensures
        sign_no_earlier(activity_of(items, cache), items[i].event, cache),
    decreases items.len(),
{
    let past = items.drop_last();
    let before = activity_of(past, cache);
    let after = activity_of(items, cache);
    let e = items.last().event;
    let server_id = cache.servers[e.server_id];
    let at = activity_index(before, server_id);
    lemma_activity_place(before, server_id);
    if i < past.len() {
        lemma_no_later_items(past, cache, i);
        assert(past[i] == items[i]);
        let a = choose|a: int|
            0 <= a < before.len() && (#[trigger] before[a]).server_id
                == cache.servers[past[i].event.server_id] && past[i].event.occurred_at
                <= before[a].last_seen_at;
        assert(after[a].server_id == before[a].server_id);
    } else {
        assert(after[at].server_id == server_id);
    }
}

/// Each server of a batch shows one sign of life, its latest: that of one of its
/// own events, and none of its events came later.
pub proof fn law_latest_sign_of_life_counts(items: Seq<QueuedModel>, cache: CacheModel)
    ensures
        one_sign_each(activity_of(items, cache)),
        forall|a: int|
            0 <= a < activity_of(items, cache).len() ==> sign_of_some(
                #[trigger] activity_of(items, cache)[a],
                items,
                cache,
            ),
        forall|i: int|
            0 <= i < items.len() ==> sign_no_earlier(
                activity_of(items, cache),
                (#[trigger] items[i]).event,
                cache,
            ),
{
    lemma_one_sign_each(items, cache);
    assert forall|a: int| 0 <= a < activity_of(items, cache).len() implies sign_of_some(
        #[trigger] activity_of(items, cache)[a],
        items,
        cache,
    ) by {
        lemma_signs_of_items(items, cache, a);
    }
    assert forall|i: int| 0 <= i < items.len() implies sign_no_earlier(
        activity_of(items, cache),
        (#[trigger] items[i]).event,
        cache,
    ) by {
        lemma_no_later_items(items, cache, i);
    }
}

/// The request that stores a sign of life.
pub open spec fn touch_request(a: ActivityModel) -> RequestModel {
    RequestModel::TouchServer {
        server_id: a.server_id,
        hostname: a.hostname,
        host_port: a.host_port,
        last_seen_at: a.last_seen_at,
    }
}

/// The requests that store the signs of life of `list`.
pub open spec fn touch_requests(list: Seq<ActivityModel>) -> Seq<RequestModel> {
    list.map_values(|a: ActivityModel| touch_request(a))
}

/// The requests that have stored a sign of life.
pub open spec fn servers_touched(
    items: Seq<QueuedModel>,
    cache: CacheModel,
    replies: Seq<ReplyModel>,
) -> Seq<RequestModel>
    decreases replies.len(),
{
    if replies.len() == 0 {
        Seq::empty()
    } else {
        let earlier = servers_touched(items, cache, replies.drop_last());
        let request = last_request(items, cache, replies);
        if request is TouchServer {
            earlier.push(request)
        } else {
            earlier
        }
    }
}

/// `done` are the signs of life that a run has stored so far.
spec fn touched_so_far(w: WriteModel, done: Seq<RequestModel>) -> bool {
    match w.phase {
        PhaseModel::ServerTouched { at } => done == touch_requests(w.activity.take(at + 1)),
        PhaseModel::EventsInserted => done == touch_requests(activity_of(w.items, w.cache)),
        PhaseModel::TicksInserted | PhaseModel::Committed | PhaseModel::Over => true,
        _ => done.len() == 0,
    }
}

/// `done`, and `request` where it stores a sign of life.
spec fn noted_touch(done: Seq<RequestModel>, request: RequestModel) -> Seq<RequestModel> {
    if request is TouchServer {
        done.push(request)
    } else {
        done
    }
}

proof fn lemma_touch_from_notes(w: WriteModel, at: int, done: Seq<RequestModel>)
    requires
        w.position == w.items.len(),
        activity_collected(w, w.position),
        0 <= at <= w.activity.len(),
        done == touch_requests(w.activity.take(at)),
    ensures
        touched_so_far(touch_from(w, at).0, noted_touch(done, touch_from(w, at).1)),
{
    assert(w.items.take(w.position) =~= w.items);
    if at < w.activity.len() {
        assert(touch_requests(w.activity.take(at + 1)) =~= done.push(
            touch_request(w.activity[at]),
        ));
    } else {
        assert(w.activity.take(at) =~= w.activity);
    }
}

proof fn lemma_advance_notes(w: WriteModel, done: Seq<RequestModel>)
    requires
        0 <= w.position <= w.items.len(),
        rows_collected(w),
        activity_collected(w, w.position),
        done.len() == 0,
    ensures
        touched_so_far(advance(w).0, noted_touch(done, advance(w).1)),
    decreases w.items.len() - w.position,
{
    if w.position == w.items.len() {
        assert(done =~= touch_requests(w.activity.take(0)));
        lemma_touch_from_notes(w, 0, done);
    } else if w.cache.servers.contains_key(w.current().server_id) {
        let server_id = w.cache.servers[w.current().server_id];
        let (next, request) = with_server(w, server_id);
        lemma_with_server(w, server_id);
        if request is None {
            lemma_advance_notes(next, done);
        }
    }
}

proof fn lemma_step_notes(w: WriteModel, reply: ReplyModel, done: Seq<RequestModel>)
    requires
        on_track(w),
        touched_so_far(w, done),
    ensures
        touched_so_far(write_step(w, reply).0, noted_touch(done, write_step(w, reply).1)),
{
    lemma_resumed_on_track(w, reply);
    match resumed(w, reply) {
        Some(next) => lemma_advance_notes(next, done),
        None => match w.phase {
            PhaseModel::ServerTouched { at } => lemma_touch_from_notes(w, at + 1, done),
            _ => {},
        },
    }
}

proof fn lemma_run_notes(items: Seq<QueuedModel>, cache: CacheModel, replies: Seq<ReplyModel>)
    ensures
        touched_so_far(
            write_run(items, cache, replies),
            servers_touched(items, cache, replies),
        ),
    decreases replies.len(),
{
    if replies.len() > 0 {
        let before = write_run(items, cache, replies.drop_last());
        lemma_run(items, cache, replies.drop_last());
        lemma_run_notes(items, cache, replies.drop_last());
        lemma_step_notes(
            before,
            replies.last(),
            servers_touched(items, cache, replies.drop_last()),
        );
    }
}

/// Before a batch inserts its rows, it has stored the latest sign of life of
/// each of its servers, each once.
pub proof fn law_signs_of_life_are_stored_before_the_rows(
    items: Seq<QueuedModel>,
    cache: CacheModel,
    replies: Seq<ReplyModel>,
)
    requires
        replies.len() > 0,
        last_request(items, cache, replies) is InsertEvents,
    ensures
        servers_touched(items, cache, replies) == touch_requests(
            activity_of(items, write_run(items, cache, replies).cache),
        ),
{
    lemma_run(items, cache, replies.drop_last());
    lemma_run(items, cache, replies);
    lemma_run_notes(items, cache, replies);
    lemma_request_phase(write_run(items, cache, replies.drop_last()), replies.last());
}

/// How far a phase is from the end of its item, or of the run where no item is
/// left.
pub open spec fn phases_left(phase: PhaseModel) -> nat {
    match phase {
        PhaseModel::Begin => 12,
        PhaseModel::ServerStored => 11,
        PhaseModel::ServerId => 10,
        PhaseModel::SessionStored { .. } => 9,
        PhaseModel::SessionId { .. } => 8,
        PhaseModel::StaleList { .. } => 7,
        PhaseModel::StaleEvent { .. } => 6,
        PhaseModel::StaleTick { .. } => 6,
        PhaseModel::StaleAggregate { .. } => 6,
        PhaseModel::StaleClosed { .. } => 6,
        PhaseModel::SessionUpdated => 5,
        PhaseModel::ServerTouched { .. } => 4,
        PhaseModel::EventsInserted => 3,
        PhaseModel::TicksInserted => 2,
        PhaseModel::Committed => 1,
        PhaseModel::Over => 0,
    }
}

/// How many requests a phase that goes through a list has left.
pub open spec fn requests_left(w: WriteModel) -> int {
    match w.phase {
        PhaseModel::StaleEvent { stale, at, .. } => 4 * (stale.len() - at),
        PhaseModel::StaleTick { stale, at, .. } => 4 * (stale.len() - at) - 1,
        PhaseModel::StaleAggregate { stale, at, .. } => 4 * (stale.len() - at) - 2,
        PhaseModel::StaleClosed { stale, at, .. } => 4 * (stale.len() - at) - 3,
        PhaseModel::ServerTouched { at } => w.activity.len() - at,
        _ => 0,
    }
}

/// How many items are left.
pub open spec fn items_left(w: WriteModel) -> int {
    w.items.len() - w.position
}

/// `next` is closer to the end than `w`: it has fewer items left, or as many and
/// stands at a later phase, or at the same one with fewer requests left.
pub open spec fn closer(next: WriteModel, w: WriteModel) -> bool {
    ||| items_left(next) < items_left(w)
    ||| items_left(next) == items_left(w) && phases_left(next.phase) < phases_left(w.phase)
    ||| {
        &&& items_left(next) == items_left(w)
        &&& phases_left(next.phase) == phases_left(w.phase)
        &&& requests_left(next) < requests_left(w)
    }
}

/// Going on never goes back, and leaves the phase in which nothing was asked.
proof fn lemma_advance_goes_on(w: WriteModel)
    requires
        0 <= w.position <= w.items.len(),
    ensures
        advance(w).0.items == w.items,
        w.position <= advance(w).0.position <= w.items.len(),
        phases_left(advance(w).0.phase) < phases_left(PhaseModel::Begin),
    decreases w.items.len() - w.position,
{
    if w.position < w.items.len() && w.cache.servers.contains_key(w.current().server_id) {
        let (next, request) = with_server(w, w.cache.servers[w.current().server_id]);
        if request is None {
            lemma_advance_goes_on(next);
        }
    }
}

/// Whatever the database replies, every step comes closer to the end, until the
/// run is over.
pub proof fn law_every_step_comes_closer(w: WriteModel, reply: ReplyModel)
    requires
        w.well_formed(),
        !(w.phase is Over),
    ensures
        closer(write_step(w, reply).0, w),
        items_left(write_step(w, reply).0) >= 0,
        requests_left(write_step(w, reply).0) >= 0,
{
    lemma_step_well_formed(w, reply);
    lemma_resumed(w, reply);
    if let Some(next) = resumed(w, reply) {
        lemma_advance_goes_on(next);
    }
}

/// The first `n` of the replies that `reply` gives.
pub open spec fn first_replies(reply: spec_fn(nat) -> ReplyModel, n: nat) -> Seq<ReplyModel> {
    Seq::new(n, |i: int| reply(i as nat))
}

/// The request that follows the first `n` replies commits the transaction.
pub open spec fn commits_after(
    items: Seq<QueuedModel>,
    cache: CacheModel,
    reply: spec_fn(nat) -> ReplyModel,
    n: nat,
) -> bool {
    n > 0 && last_request(items, cache, first_replies(reply, n)) is Commit
}

proof fn lemma_comes_to_its_commit(
    items: Seq<QueuedModel>,
    cache: CacheModel,
    reply: spec_fn(nat) -> ReplyModel,
    n: nat,
)
    requires
        ({
            let w = write_run(items, cache, first_replies(reply, n));
            !(w.phase is Committed) && !(w.phase is Over)
        }),
    ensures
        exists|k: nat| commits_after(items, cache, reply, k),
    decreases
        items_left(write_run(items, cache, first_replies(reply, n))),
        phases_left(write_run(items, cache, first_replies(reply, n)).phase),
        requests_left(write_run(items, cache, first_replies(reply, n))),
{
    let replies = first_replies(reply, n);
    let more = first_replies(reply, n + 1);
    let w = write_run(items, cache, replies);
    assert(more.drop_last() =~= replies);
    assert(more.last() == reply(n));
    lemma_run(items, cache, replies);
    lemma_request_phase(w, reply(n));
    if w.phase is TicksInserted {
        assert(commits_after(items, cache, reply, n + 1));
    } else {
        law_every_step_comes_closer(w, reply(n));
        lemma_comes_to_its_commit(items, cache, reply, n + 1);
    }
}

/// Whatever the database replies to each request, as long as it replies, the run
/// comes to its commit.
pub proof fn law_run_comes_to_its_commit(
    items: Seq<QueuedModel>,
    cache: CacheModel,
    reply: spec_fn(nat) -> ReplyModel,
)
    ensures
        exists|n: nat| commits_after(items, cache, reply, n),
{
    assert(first_replies(reply, 0) =~= Seq::empty());
    lemma_comes_to_its_commit(items, cache, reply, 0);
}

/// The records of one kind among `items`, in their order.
proof fn lemma_rows_of_records(items: Seq<QueuedModel>, cache: CacheModel)
    ensures
        ({
            let events = items.filter(
                |i: QueuedModel|
                    i.event.record_type != "session_start"@ && i.event.record_type
                        != "session_end"@ && i.event.record_type != "tick_sample"@,
            );
            let rows = event_rows_of(items, cache);
            &&& rows.len() == events.len()
            &&& forall|k: int|
                0 <= k < rows.len() ==> #[trigger] rows[k] == event_row(
                    events[k].event,
                    session_of(cache, events[k].event),
                )
        }),
        ({
            let samples = items.filter(|i: QueuedModel| i.event.record_type == "tick_sample"@);
            let rows = tick_rows_of(items, cache);
            &&& rows.len() == samples.len()
            &&& forall|k: int|
                0 <= k < rows.len() ==> #[trigger] rows[k] == tick_row(
                    samples[k].event,
                    session_of(cache, samples[k].event),
                )
        }),
        ({
            let records = items.filter(
                |i: QueuedModel|
                    i.event.record_type == "session_start"@ || i.event.record_type
                        == "session_end"@,
            );
            let requests = session_requests_of(items, cache);
            &&& requests.len() == records.len()
            &&& forall|k: int|
                0 <= k < requests.len() ==> {
                    let e = records[k].event;
                    &&& e.record_type == "session_start"@ ==> #[trigger] requests[k]
                        == start_session_request(e, session_of(cache, e))
                    &&& e.record_type == "session_end"@ ==> requests[k] == end_session_request(
                        e,
                        session_of(cache, e),
                        false,
                    )
                }
        }),
    decreases items.len(),
{
    reveal(Seq::filter);
    reveal_strlit("session_start");
    reveal_strlit("session_end");
    reveal_strlit("tick_sample");
    assert("session_start"@.len() == 13 && "session_end"@.len() == 11);
    assert("session_end"@[0] == 's' && "tick_sample"@[0] == 't');
    if items.len() > 0 {
        lemma_rows_of_records(items.drop_last(), cache);
    }
}

/// Whatever the database replies, the rows of events that a batch inserts are those
/// of its records that are neither starts nor ends of sessions nor tick samples,
/// one for each and in their order; and each column holds the record's own field,
/// unchanged, under the session that is known for the record's server and key.
pub proof fn law_inserted_events_hold_what_was_queued(
    items: Seq<QueuedModel>,
    cache: CacheModel,
    replies: Seq<ReplyModel>,
    k: int,
)
    requires
        replies.len() > 0,
    ensures
        last_request(items, cache, replies) matches RequestModel::InsertEvents { events: rows }
            ==> {
            let records = items.filter(
                |i: QueuedModel|
                    i.event.record_type != "session_start"@ && i.event.record_type
                        != "session_end"@ && i.event.record_type != "tick_sample"@,
            );
            let known = write_run(items, cache, replies).cache;
            &&& rows.len() == records.len()
            &&& 0 <= k < rows.len() ==> {
                let row = rows[k];
                let e = records[k].event;
                &&& e.event_id matches Some(id) ==> row.event_id == id
                &&& e.event_id is None ==> row.event_id.len() == 0
                &&& row.session_id == known.sessions[(
                    known.servers[e.server_id],
                    e.map_session_id,
                )]
                &&& row.source_plugin == e.source_plugin
                &&& row.event_name == e.event_name
                &&& row.message == e.message
                &&& row.occurred_at == e.occurred_at
                &&& row.server_tick == e.server_tick
                &&& row.tick_interval == e.tick_interval_seconds
                &&& row.expected_tickrate == e.expected_tickrate
                &&& row.observed_tickrate == e.observed_tickrate
            }
        },
{
    law_rows_are_those_of_the_batch(items, cache, replies);
    lemma_rows_of_records(items, write_run(items, cache, replies).cache);
}

/// Whatever the database replies, the rows of tick samples that a batch inserts are
/// those of its samples, one for each and in their order; and each column holds the
/// sample's own field, unchanged, under the session that is known for the sample's
/// server and key.
pub proof fn law_inserted_samples_hold_what_was_queued(
    items: Seq<QueuedModel>,
    cache: CacheModel,
    replies: Seq<ReplyModel>,
    k: int,
)
    requires
        replies.len() > 0,
    ensures
        last_request(items, cache, replies) matches RequestModel::InsertTicks { ticks: rows } ==> {
            let samples = items.filter(|i: QueuedModel| i.event.record_type == "tick_sample"@);
            let known = write_run(items, cache, replies).cache;
            &&& rows.len() == samples.len()
            &&& 0 <= k < rows.len() ==> {
                let row = rows[k];
                let e = samples[k].event;
                &&& e.event_id matches Some(id) ==> row.event_id == id
                &&& e.event_id is None ==> row.event_id.len() == 0
                &&& row.session_id == known.sessions[(
                    known.servers[e.server_id],
                    e.map_session_id,
                )]
                &&& row.sampled_at == e.occurred_at
                &&& row.server_tick == e.server_tick
                &&& row.tick_interval == e.tick_interval_seconds
                &&& row.expected_tickrate == e.expected_tickrate
                &&& row.observed_tickrate == e.observed_tickrate
            }
        },
{
    law_rows_are_those_of_the_batch(items, cache, replies);
    lemma_rows_of_records(items, write_run(items, cache, replies).cache);
}

/// Before a batch inserts its rows, each record that starts or ends a session has
/// been stored, one after the other in their order, with the record's own fields
/// under the session that is known for the record's server and key. An end is that
/// which the record names, and the record's own time where it names none; a start
/// likewise.
pub proof fn law_stored_sessions_hold_what_was_queued(
    items: Seq<QueuedModel>,
    cache: CacheModel,
    replies: Seq<ReplyModel>,
    k: int,
)
    requires
        replies.len() > 0,
        last_request(items, cache, replies) is InsertEvents,
    ensures
        ({
            let records = items.filter(
                |i: QueuedModel|
                    i.event.record_type == "session_start"@ || i.event.record_type
                        == "session_end"@,
            );
            let known = write_run(items, cache, replies).cache;
            let stored = sessions_stored(items, cache, replies);
            &&& stored.len() == records.len()
            &&& 0 <= k < stored.len() ==> {
                let e = records[k].event;
                let session = known.sessions[(known.servers[e.server_id], e.map_session_id)];
                &&& e.record_type == "session_start"@ ==> {
                    &&& stored[k] matches RequestModel::StartSession {
                        session_id,
                        map_name,
                        gamemode,
                        started_at,
                        start_tick,
                        tick_interval,
                        expected_tickrate,
                        now,
                    }
                    &&& session_id == session
                    &&& map_name == e.map_name
                    &&& gamemode == e.gamemode
                    &&& e.session_started_at > 0 ==> started_at == e.session_started_at
                    &&& e.session_started_at <= 0 ==> started_at == e.occurred_at
                    &&& start_tick == e.server_tick
                    &&& tick_interval == e.tick_interval_seconds
                    &&& expected_tickrate == e.expected_tickrate
                    &&& now == e.occurred_at
                }
                &&& e.record_type == "session_end"@ ==> {
                    &&& stored[k] matches RequestModel::EndSession {
                        session_id,
                        ended_at,
                        end_reason,
                        end_inferred,
                        end_tick,
                        average_tickrate,
                        minimum_tickrate,
                        sample_count,
                    }
                    &&& session_id == session
                    &&& e.session_ended_at > 0 ==> ended_at == e.session_ended_at
                    &&& e.session_ended_at <= 0 ==> ended_at == e.occurred_at
                    &&& end_reason == e.end_reason
                    &&& !end_inferred
                    &&& end_tick == e.server_tick
                    &&& average_tickrate == e.session_average_tickrate
                    &&& minimum_tickrate == e.session_minimum_tickrate
                    &&& sample_count == e.session_sample_count
                }
            }
        }),
{
    law_sessions_are_stored_before_the_rows(items, cache, replies);
    lemma_rows_of_records(items, write_run(items, cache, replies).cache);
}

/// A server or a session is stored only for an event of the batch whose server or
/// session is not known, and with what that event says; and the stale sessions that
/// are asked for are those of the server of a record that starts a session, but for
/// the one that it starts.
pub proof fn law_unknown_servers_and_sessions_are_stored(
    items: Seq<QueuedModel>,
    cache: CacheModel,
    replies: Seq<ReplyModel>,
)
    requires
        replies.len() > 0,
    ensures
        ({
            let w = write_run(items, cache, replies);
            let e = items[w.position].event;
            match last_request(items, cache, replies) {
                RequestModel::UpsertServer { server_key, hostname, host_port, now } => {
                    &&& 0 <= w.position < items.len()
                    &&& !w.cache.servers.contains_key(e.server_id)
                    &&& server_key == e.server_id
                    &&& hostname == e.server_name
                    &&& host_port == e.host_port
                    &&& now == e.occurred_at
                },
                RequestModel::UpsertSession {
                    session_key,
                    server_id,
                    host_port,
                    map_name,
                    gamemode,
                    started_at,
                    start_tick,
                    tick_interval,
                    expected_tickrate,
                    now,
                } => {
                    &&& 0 <= w.position < items.len()
                    &&& w.cache.servers.contains_key(e.server_id)
                    &&& !w.cache.sessions.contains_key((server_id, e.map_session_id))
                    &&& server_id == w.cache.servers[e.server_id]
                    &&& session_key == e.map_session_id
                    &&& host_port == e.host_port
                    &&& map_name == e.map_name
                    &&& gamemode == e.gamemode
                    &&& e.session_started_at > 0 ==> started_at == e.session_started_at
                    &&& e.session_started_at <= 0 ==> started_at == e.occurred_at
                    &&& start_tick == e.server_tick
                    &&& tick_interval == e.tick_interval_seconds
                    &&& expected_tickrate == e.expected_tickrate
                    &&& now == e.occurred_at
                },
                RequestModel::StaleSessions { server_id, session_id } => {
                    &&& 0 <= w.position < items.len()
                    &&& e.record_type == "session_start"@
                    &&& server_id == w.cache.servers[e.server_id]
                    &&& session_id == w.cache.sessions[(server_id, e.map_session_id)]
                },
                _ => true,
            }
        }),
{
    lemma_run(items, cache, replies.drop_last());
    lemma_step(write_run(items, cache, replies.drop_last()), replies.last());
    lemma_run(items, cache, replies);
}

proof fn lemma_sign_is_the_last(items: Seq<QueuedModel>, cache: CacheModel, a: int) -> (i: int)
    requires
        0 <= a < activity_of(items, cache).len(),
    ensures
        ({
            let sign = activity_of(items, cache)[a];
            &&& 0 <= i < items.len()
            &&& sign == sign_of_life(items[i].event, cache.servers[items[i].event.server_id])
            &&& forall|j: int|
                0 <= j < items.len() && cache.servers[(#[trigger] items[j]).event.server_id]
                    == sign.server_id ==> {
                    &&& items[j].event.occurred_at <= items[i].event.occurred_at
                    &&& j > i ==> items[j].event.occurred_at < items[i].event.occurred_at
                }
        }),
    decreases items.len(),
{
    let past = items.drop_last();
    let before = activity_of(past, cache);
    let after = activity_of(items, cache);
    let n = items.len() - 1;
    let e = items[n].event;
    let server_id = cache.servers[e.server_id];
    let at = activity_index(before, server_id);
    lemma_activity_place(before, server_id);
    lemma_one_sign_each(past, cache);
    assert forall|j: int| 0 <= j < n implies #[trigger] past[j] == items[j] by {}
    if a == at && (at == before.len() || e.occurred_at >= before[at].last_seen_at) {
        assert forall|j: int|
            0 <= j < items.len() && cache.servers[(#[trigger] items[j]).event.server_id]
                == server_id implies items[j].event.occurred_at <= e.occurred_at by {
            if j < n {
                lemma_no_later_items(past, cache, j);
                let b = choose|b: int|
                    0 <= b < before.len() && (#[trigger] before[b]).server_id
                        == cache.servers[past[j].event.server_id] && past[j].event.occurred_at
                        <= before[b].last_seen_at;
                assert(before[b].server_id == server_id);
                if b < at {
                    assert(before[b].server_id != server_id);
                } else if b > at {
                    assert(before[at].server_id != before[b].server_id);
                }
            }
        }
        n
    } else {
        assert(after[a] == before[a]);
        let i = lemma_sign_is_the_last(past, cache, a);
        assert(items[i] == past[i]);
        let sign = after[a];
        assert forall|j: int|
            0 <= j < items.len() && cache.servers[(#[trigger] items[j]).event.server_id]
                == sign.server_id implies {
            &&& items[j].event.occurred_at <= items[i].event.occurred_at
            &&& j > i ==> items[j].event.occurred_at < items[i].event.occurred_at
        } by {
            if j < n {
                assert(past[j] == items[j]);
            } else {
                assert(sign.server_id == server_id);
                if a < at {
                    assert(before[a].server_id != server_id);
                } else if a > at {
                    assert(before[at].server_id != before[a].server_id);
                }
            }
        }
        i
    }
}

/// Before a batch inserts its rows, the last sign of life of each of its servers has
/// been stored: when the event with the latest time came, and of two at that time
/// the one behind, with that event's own name and port of the server.
pub proof fn law_stored_signs_hold_the_last_event(
    items: Seq<QueuedModel>,
    cache: CacheModel,
    replies: Seq<ReplyModel>,
    k: int,
)
    requires
        replies.len() > 0,
        last_request(items, cache, replies) is InsertEvents,
        0 <= k < servers_touched(items, cache, replies).len(),
    ensures
        ({
            let known = write_run(items, cache, replies).cache;
            &&& servers_touched(items, cache, replies)[k] matches RequestModel::TouchServer {
                server_id,
                hostname,
                host_port,
                last_seen_at,
            }
            &&& exists|i: int|
                0 <= i < items.len() && {
                    let e = (#[trigger] items[i]).event;
                    &&& server_id == known.servers[e.server_id]
                    &&& hostname == e.server_name
                    &&& host_port == e.host_port
                    &&& last_seen_at == e.occurred_at
                    &&& forall|j: int|
                        0 <= j < items.len() && known.servers[(
                        #[trigger] items[j]).event.server_id] == server_id ==> {
                            &&& items[j].event.occurred_at <= e.occurred_at
                            &&& j > i ==> items[j].event.occurred_at < e.occurred_at
                        }
                }
        }),
{
    law_signs_of_life_are_stored_before_the_rows(items, cache, replies);
    let known = write_run(items, cache, replies).cache;
    let i = lemma_sign_is_the_last(items, known, k);
    let e = items[i].event;
    assert(servers_touched(items, cache, replies)[k] == touch_request(
        activity_of(items, known)[k],
    ));
}

} // verus!
