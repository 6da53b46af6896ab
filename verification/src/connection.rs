//! The conversation with one client: what each frame and each message is
//! answered, and what it changes.

use crate::completion::BatchCompletionSnapshot;
use crate::config::{
    auth_matches, auth_required, is_loopback, loopback, protocol_auth_matches, Config, ConfigModel,
    PeerIp,
};
use crate::dedupe::DedupeCache;
use crate::event::{EventModel, StatsEvent};
use crate::frame::FrameRead;
use crate::ingest::{event_models, EnqueueError, EnqueueResult};
use crate::queue::{queue_depth_and_dropped, QueueState};
use crate::stats::{count, counted, ServiceStats};
use crate::text::{
    decode_text, identifier_text, law_identifier_shape, law_identifiers_are_kept, limit,
    limit_chars, normalize_identifier, normalized_identifier, option_text,
};
use vstd::prelude::*;

verus! {

/// A message of a client.
#[derive(Debug)]
pub enum IncomingMessage {
    /// The client says who it is.
    Hello {
        service: Option<String>,
        proto: Option<u32>,
        server_id: Option<String>,
        server_name: Option<String>,
        auth: Option<String>,
        ts: Option<u64>,
    },
    /// The client sends events.
    StatsBatch {
        batch_id: Option<u64>,
        table: Option<String>,
        sent_at: Option<u64>,
        events: Vec<StatsEvent>,
    },
    /// The client sends statements of its own.
    SqlBatch { batch_id: Option<u64> },
    /// The client asks how the service is.
    Health,
}

/// What a message says.
pub enum MessageModel {
    Hello {
        service: Option<Seq<char>>,
        proto: Option<u32>,
        server_id: Option<Seq<char>>,
        server_name: Option<Seq<char>>,
        auth: Option<Seq<char>>,
        ts: Option<u64>,
    },
    StatsBatch {
        batch_id: Option<u64>,
        table: Option<Seq<char>>,
        sent_at: Option<u64>,
        events: Seq<EventModel>,
    },
    SqlBatch { batch_id: Option<u64> },
    Health,
}

impl View for IncomingMessage {
    type V = MessageModel;

    open spec fn view(&self) -> MessageModel {
        match self {
            IncomingMessage::Hello { service, proto, server_id, server_name, auth, ts } =>
                MessageModel::Hello {
                service: option_text(*service),
                proto: *proto,
                server_id: option_text(*server_id),
                server_name: option_text(*server_name),
                auth: option_text(*auth),
                ts: *ts,
            },
            IncomingMessage::StatsBatch { batch_id, table, sent_at, events } =>
                MessageModel::StatsBatch {
                batch_id: *batch_id,
                table: option_text(*table),
                sent_at: *sent_at,
                events: event_models(events@),
            },
            IncomingMessage::SqlBatch { batch_id } => MessageModel::SqlBatch {
                batch_id: *batch_id,
            },
            IncomingMessage::Health => MessageModel::Health,
        }
    }
}

/// What a client is answered.
#[derive(Debug)]
pub enum Response {
    /// The client is welcome.
    HelloAck { service: String, proto: u32, server_id: String, ts: u64, server_time: u64 },
    /// A batch was written.
    Ack {
        batch_id: Option<u64>,
        accepted: usize,
        executed: usize,
        db_errors: usize,
        queue_depth: usize,
        sent_at: u64,
        ts: u64,
    },
    /// A request was refused.
    Error { batch_id: Option<u64>, message: &'static str, ts: u64 },
    /// How the service is. Of its counters, the one that runs between two checks
    /// of the journal is not sent.
    Health {
        queue_depth: usize,
        queue_dropped: u64,
        dedupe_events: usize,
        stats: ServiceStats,
        ts: u64,
    },
}

/// What an answer says.
pub enum ResponseModel {
    HelloAck { service: Seq<char>, proto: u32, server_id: Seq<char>, ts: u64, server_time: u64 },
    Ack {
        batch_id: Option<u64>,
        accepted: usize,
        executed: usize,
        db_errors: usize,
        queue_depth: nat,
        sent_at: u64,
        ts: u64,
    },
    Error { batch_id: Option<u64>, message: Seq<char>, ts: u64 },
    Health {
        queue_depth: nat,
        queue_dropped: u64,
        dedupe_events: nat,
        stats: ServiceStats,
        ts: u64,
    },
}

impl View for Response {
    type V = ResponseModel;

    open spec fn view(&self) -> ResponseModel {
        match self {
            Response::HelloAck { service, proto, server_id, ts, server_time } =>
                ResponseModel::HelloAck {
                service: service@,
                proto: *proto,
                server_id: server_id@,
                ts: *ts,
                server_time: *server_time,
            },
            Response::Ack { batch_id, accepted, executed, db_errors, queue_depth, sent_at, ts } =>
                ResponseModel::Ack {
                batch_id: *batch_id,
                accepted: *accepted,
                executed: *executed,
                db_errors: *db_errors,
                queue_depth: *queue_depth as nat,
                sent_at: *sent_at,
                ts: *ts,
            },
            Response::Error { batch_id, message, ts } => ResponseModel::Error {
                batch_id: *batch_id,
                message: message@,
                ts: *ts,
            },
            Response::Health { queue_depth, queue_dropped, dedupe_events, stats, ts } =>
                ResponseModel::Health {
                queue_depth: *queue_depth as nat,
                queue_dropped: *queue_dropped,
                dedupe_events: *dedupe_events as nat,
                stats: *stats,
                ts: *ts,
            },
        }
    }
}

/// What is known of the client.
#[derive(Debug)]
pub struct Connection {
    pub authenticated: bool,
    pub server_id: String,
    pub server_name: String,
}

/// What is known of the client, with its texts as sequences of characters.
#[verifier::ext_equal]
pub struct ConnectionModel {
    pub authenticated: bool,
    pub server_id: Seq<char>,
    pub server_name: Seq<char>,
}

impl View for Connection {
    type V = ConnectionModel;

    open spec fn view(&self) -> ConnectionModel {
        ConnectionModel {
            authenticated: self.authenticated,
            server_id: self.server_id@,
            server_name: self.server_name@,
        }
    }
}

/// A client that has not said anything.
pub open spec fn stranger() -> ConnectionModel {
    ConnectionModel { authenticated: false, server_id: Seq::empty(), server_name: Seq::empty() }
}

impl Connection {
    /// A client that has not said anything.
    pub fn new() -> (connection: Self)
        ensures
            connection@ == stranger(),
    {
        let connection = Connection {
            authenticated: false,
            server_id: String::new(),
            server_name: String::new(),
        };
        assert(connection@ =~= stranger());
        connection
    }
}

/// The refusal of a request.
pub open spec fn refusal(batch_id: Option<u64>, message: Seq<char>, now: u64) -> ResponseModel {
    ResponseModel::Error { batch_id, message, ts: now }
}

/// The refusal of a request.
fn refuse(batch_id: Option<u64>, message: &'static str, now: u64) -> (response: Response)
    ensures
        response@ == refusal(batch_id, message@, now),
{
    Response::Error { batch_id, message, ts: now }
}

/// The counters after one more request that could not be read or was out of
/// turn.
pub open spec fn parse_error_counted(stats: ServiceStats) -> ServiceStats {
    ServiceStats { parse_errors: counted(stats.parse_errors, 1), ..stats }
}

/// Counts one more request that could not be read or was out of turn.
fn count_parse_error(stats: &mut ServiceStats)
    ensures
        *final(stats) == parse_error_counted(*old(stats)),
{
    stats.parse_errors = count(stats.parse_errors, 1);
}

/// Turns away a peer from another machine, where only this one is let in: gives
/// the answer after which the connection is closed.
pub fn reject_peer(config: &Config, ip: PeerIp, now: u64) -> (response: Option<Response>)
    ensures
        match response {
            Some(r) => config.require_localhost && !loopback(ip) && r@ == refusal(
                None,
                "only loopback clients are accepted"@,
                now,
            ),
            None => !config.require_localhost || loopback(ip),
        },
{
    if config.require_localhost && !is_loopback(ip) {
        Some(refuse(None, "only loopback clients are accepted", now))
    } else {
        None
    }
}

/// What follows from a frame.
#[derive(Debug)]
pub enum FrameAction {
    /// The connection is closed.
    Close,
    /// The next frame is read.
    Skip,
    /// The answer is sent, and the next frame is read.
    Reply(Response),
    /// The text is read as a message.
    Read(String),
}

/// What is done with a frame that was read.
pub fn handle_frame(
    read: FrameRead,
    frame: &Vec<u8>,
    now: u64,
    stats: &mut ServiceStats,
) -> (action: FrameAction)
    ensures
        match read {
            FrameRead::Eof => action is Close && *final(stats) == *old(stats),
            FrameRead::TooLong => {
                &&& action matches FrameAction::Reply(r) && r@ == refusal(
                    None,
                    "frame too large"@,
                    now,
                )
                &&& *final(stats) == parse_error_counted(*old(stats))
            },
            FrameRead::Line => if frame@.len() == 0 {
                action is Skip && *final(stats) == *old(stats)
            } else if vstd::utf8::valid_utf8(frame@) {
                &&& action matches FrameAction::Read(text) && text@ == vstd::utf8::decode_utf8(
                    frame@,
                )
                &&& *final(stats) == *old(stats)
            } else {
                &&& action matches FrameAction::Reply(r) && r@ == refusal(
                    None,
                    "invalid utf8"@,
                    now,
                )
                &&& *final(stats) == parse_error_counted(*old(stats))
            },
        },
{
    match read {
        FrameRead::Eof => FrameAction::Close,
        FrameRead::TooLong => {
            count_parse_error(stats);
            FrameAction::Reply(refuse(None, "frame too large", now))
        },
        FrameRead::Line => {
            if frame.len() == 0 {
                return FrameAction::Skip;
            }
            match decode_text(frame.as_slice()) {
                Some(text) => FrameAction::Read(text),
                None => {
                    count_parse_error(stats);
                    FrameAction::Reply(refuse(None, "invalid utf8", now))
                },
            }
        },
    }
}

/// What follows from a message.
#[derive(Debug)]
pub enum MessageAction {
    /// The answer is sent.
    Reply(Response),
    /// The answer is sent, and the connection is closed.
    ReplyAndClose(Response),
    /// The events are taken in, and the client is answered what became of them.
    TakeIn {
        batch_id: Option<u64>,
        table: Option<String>,
        sent_at: Option<u64>,
        events: Vec<StatsEvent>,
    },
    /// The client is answered how the service is.
    ReportHealth,
}

/// What an action says.
pub enum ActionModel {
    Reply(ResponseModel),
    ReplyAndClose(ResponseModel),
    TakeIn {
        batch_id: Option<u64>,
        table: Option<Seq<char>>,
        sent_at: Option<u64>,
        events: Seq<EventModel>,
    },
    ReportHealth,
}

impl View for MessageAction {
    type V = ActionModel;

    open spec fn view(&self) -> ActionModel {
        match self {
            MessageAction::Reply(r) => ActionModel::Reply(r@),
            MessageAction::ReplyAndClose(r) => ActionModel::ReplyAndClose(r@),
            MessageAction::TakeIn { batch_id, table, sent_at, events } => ActionModel::TakeIn {
                batch_id: *batch_id,
                table: option_text(*table),
                sent_at: *sent_at,
                events: event_models(events@),
            },
            MessageAction::ReportHealth => ActionModel::ReportHealth,
        }
    }
}

/// `value`, or `default` where there is none.
pub open spec fn text_or_default(value: Option<Seq<char>>, default: Seq<char>) -> Seq<char> {
    match value {
        Some(text) => text,
        None => default,
    }
}

/// `value`, or `default` where there is none.
fn str_or<'a>(value: &'a Option<String>, default: &'a str) -> (r: &'a str)
    ensures
        r@ == text_or_default(option_text(*value), default@),
{
    match value {
        Some(text) => text.as_str(),
        None => default,
    }
}

/// What a client that was let in is known as from then on.
pub open spec fn introduced(
    server_id: Option<Seq<char>>,
    server_name: Option<Seq<char>>,
) -> ConnectionModel {
    ConnectionModel {
        authenticated: true,
        server_id: normalized_identifier(
            text_or_default(server_id, "unknown"@),
            128,
            "unknown"@,
        ),
        server_name: limit(text_or_default(server_name, ""@), 255),
    }
}

/// What is known of the client after `message`.
pub open spec fn acquainted(
    c: ConnectionModel,
    config: ConfigModel,
    message: MessageModel,
) -> ConnectionModel {
    match message {
        MessageModel::Hello { server_id, server_name, auth, .. } => if auth_matches(
            config.auth_token,
            auth,
        ) {
            introduced(server_id, server_name)
        } else {
            c
        },
        _ => c,
    }
}

/// What follows from `message`. The answer is dated `now`, and `later` is what the
/// clock shows once a greeting has been dated.
pub open spec fn message_action(
    c: ConnectionModel,
    config: ConfigModel,
    message: MessageModel,
    now: u64,
    later: u64,
) -> ActionModel {
    match message {
        MessageModel::Hello { service, proto, auth, ts, .. } => if auth_matches(
            config.auth_token,
            auth,
        ) {
            ActionModel::Reply(
                ResponseModel::HelloAck {
                    service: text_or_default(service, "unknown"@),
                    proto: match proto {
                        Some(p) => p,
                        None => 1,
                    },
                    server_id: acquainted(c, config, message).server_id,
                    ts: match ts {
                        Some(t) => t,
                        None => now,
                    },
                    server_time: later,
                },
            )
        } else {
            ActionModel::ReplyAndClose(refusal(None, "unauthorized"@, now))
        },
        MessageModel::StatsBatch { batch_id, table, sent_at, events } => if !c.authenticated {
            ActionModel::Reply(refusal(batch_id, "hello required"@, now))
        } else if events.len() > config.max_inbound_events {
            ActionModel::Reply(refusal(batch_id, "too many events"@, now))
        } else {
            ActionModel::TakeIn { batch_id, table, sent_at, events }
        },
        MessageModel::SqlBatch { batch_id } => ActionModel::Reply(
            refusal(
                batch_id,
                "raw sql_batch is intentionally unsupported; send stats_batch events"@,
                now,
            ),
        ),
        MessageModel::Health => if c.authenticated {
            ActionModel::ReportHealth
        } else {
            ActionModel::Reply(refusal(None, "hello required"@, now))
        },
    }
}

/// `message` counts as one that was out of turn.
pub open spec fn counts_as_error(
    c: ConnectionModel,
    config: ConfigModel,
    message: MessageModel,
) -> bool {
    match message {
        MessageModel::Hello { auth, .. } => !auth_matches(config.auth_token, auth),
        MessageModel::StatsBatch { events, .. } => !c.authenticated || events.len()
            > config.max_inbound_events,
        _ => false,
    }
}

/// The answer to a text that is no message.
pub fn handle_bad_message(now: u64, stats: &mut ServiceStats) -> (response: Response)
    ensures
        response@ == refusal(None, "invalid json message"@, now),
        *final(stats) == parse_error_counted(*old(stats)),
{
    count_parse_error(stats);
    refuse(None, "invalid json message", now)
}

/// What is done with a message. The answer is dated `now`, and `later` is what the
/// clock shows once a greeting has been dated.
pub fn handle_message(
    connection: &mut Connection,
    config: &Config,
    message: IncomingMessage,
    now: u64,
    later: u64,
    stats: &mut ServiceStats,
) -> (action: MessageAction)
    ensures
        action@ == message_action(old(connection)@, config@, message@, now, later),
        final(connection)@ == acquainted(old(connection)@, config@, message@),
        *final(stats) == if counts_as_error(old(connection)@, config@, message@) {
            parse_error_counted(*old(stats))
        } else {
            *old(stats)
        },
{
    match message {
        IncomingMessage::Hello { service, proto, server_id, server_name, auth, ts } => {
            let provided: Option<&str> = match &auth {
                Some(token) => Some(token.as_str()),
                None => None,
            };
            if !protocol_auth_matches(config, provided) {
                count_parse_error(stats);
                return MessageAction::ReplyAndClose(refuse(None, "unauthorized", now));
            }
            connection.authenticated = true;
            connection.server_id = normalize_identifier(
                str_or(&server_id, "unknown"),
                128,
                "unknown",
            );
            connection.server_name = limit_chars(str_or(&server_name, ""), 255);
            MessageAction::Reply(
                Response::HelloAck {
                    service: str_or(&service, "unknown").to_owned(),
                    proto: match proto {
                        Some(p) => p,
                        None => 1,
                    },
                    server_id: connection.server_id.clone(),
                    ts: match ts {
                        Some(t) => t,
                        None => now,
                    },
                    server_time: later,
                },
            )
        },
        IncomingMessage::StatsBatch { batch_id, table, sent_at, events } => {
            if !connection.authenticated {
                count_parse_error(stats);
                return MessageAction::Reply(refuse(batch_id, "hello required", now));
            }
            if events.len() > config.max_inbound_events {
                count_parse_error(stats);
                return MessageAction::Reply(refuse(batch_id, "too many events", now));
            }
            MessageAction::TakeIn { batch_id, table, sent_at, events }
        },
        IncomingMessage::SqlBatch { batch_id } => MessageAction::Reply(
            refuse(
                batch_id,
                "raw sql_batch is intentionally unsupported; send stats_batch events",
                now,
            ),
        ),
        IncomingMessage::Health => {
            if connection.authenticated {
                MessageAction::ReportHealth
            } else {
                MessageAction::Reply(refuse(None, "hello required", now))
            }
        },
    }
}

/// The answer to a batch that was not taken in.
pub fn batch_refused(batch_id: Option<u64>, error: &EnqueueError, now: u64) -> (response: Response)
    ensures
        response@ == refusal(batch_id, error.message@, now),
{
    refuse(batch_id, error.message, now)
}

/// The answer to a batch that was taken in, once the waiting for it is over. A
/// batch of which nothing was accepted has nothing to wait for.
pub fn batch_acknowledged(
    batch_id: Option<u64>,
    result: EnqueueResult,
    ended: Option<BatchCompletionSnapshot>,
    queue_depth: usize,
    sent_at: Option<u64>,
    now: u64,
) -> (response: Response)
    ensures
        response@ == (ResponseModel::Ack {
            batch_id,
            accepted: result.accepted,
            executed: match ended {
                Some(snapshot) => snapshot.executed,
                None => 0,
            },
            db_errors: match ended {
                Some(snapshot) => snapshot.db_errors,
                None => 0,
            },
            queue_depth: queue_depth as nat,
            sent_at: match sent_at {
                Some(at) => at,
                None => 0,
            },
            ts: now,
        }),
{
    let snapshot = match ended {
        Some(snapshot) => snapshot,
        None => BatchCompletionSnapshot { executed: 0, db_errors: 0 },
    };
    Response::Ack {
        batch_id,
        accepted: result.accepted,
        executed: snapshot.executed,
        db_errors: snapshot.db_errors,
        queue_depth,
        sent_at: match sent_at {
            Some(at) => at,
            None => 0,
        },
        ts: now,
    }
}

/// The answer to the question how the service is.
pub fn health_report(
    queue: &QueueState,
    dedupe: &DedupeCache,
    stats: &ServiceStats,
    now: u64,
) -> (response: Response)
    ensures
        response@ == (ResponseModel::Health {
            queue_depth: queue@.events.len(),
            queue_dropped: queue@.dropped,
            dedupe_events: dedupe@.order.len(),
            stats: *stats,
            ts: now,
        }),
{
    let (queue_depth, queue_dropped): (usize, u64) = queue_depth_and_dropped(queue);
    Response::Health {
        queue_depth,
        queue_dropped,
        dedupe_events: dedupe.len(),
        stats: *stats,
        ts: now,
    }
}

/// What is known of a client after all its messages so far.
pub open spec fn acquainted_all(config: ConfigModel, messages: Seq<MessageModel>) -> ConnectionModel
    decreases messages.len(),
{
    if messages.len() == 0 {
        stranger()
    } else {
        acquainted(acquainted_all(config, messages.drop_last()), config, messages.last())
    }
}

/// `message` is a greeting that lets the client in.
pub open spec fn lets_in(config: ConfigModel, message: MessageModel) -> bool {
    message matches MessageModel::Hello { auth, .. } && auth_matches(config.auth_token, auth)
}

/// A client is let in exactly by a greeting with the right token.
pub proof fn law_only_a_greeting_lets_in(config: ConfigModel, messages: Seq<MessageModel>)
    ensures
        acquainted_all(config, messages).authenticated <==> exists|i: int|
            0 <= i < messages.len() && lets_in(config, #[trigger] messages[i]),
    decreases messages.len(),
{
    if messages.len() > 0 {
        let earlier = messages.drop_last();
        law_only_a_greeting_lets_in(config, earlier);
        let last = messages[messages.len() - 1];
        if acquainted_all(config, messages).authenticated && !lets_in(config, last) {
            let i = choose|i: int| 0 <= i < earlier.len() && lets_in(config, #[trigger] earlier[i]);
            assert(messages[i] == earlier[i]);
        }
        if exists|i: int| 0 <= i < messages.len() && lets_in(config, #[trigger] messages[i]) {
            let i = choose|i: int|
                0 <= i < messages.len() && lets_in(config, #[trigger] messages[i]);
            if i < earlier.len() {
                assert(earlier[i] == messages[i]);
            }
        }
    }
}

/// Nothing is taken in, and nothing is told of the service, before a greeting
/// with the right token; and no more events are taken in at once than allowed.
pub proof fn law_strangers_are_refused(
    config: ConfigModel,
    messages: Seq<MessageModel>,
    message: MessageModel,
    now: u64,
    later: u64,
)
    ensures
        ({
            let c = acquainted_all(config, messages);
            let action = message_action(c, config, message, now, later);
            &&& action is TakeIn || action is ReportHealth ==> exists|i: int|
                0 <= i < messages.len() && lets_in(config, #[trigger] messages[i])
            &&& action matches ActionModel::TakeIn { events, .. } ==> events.len()
                <= config.max_inbound_events
        }),
{
    law_only_a_greeting_lets_in(config, messages);
}

/// Statements of a client's own are never executed, whoever sends them.
pub proof fn law_raw_statements_are_refused(
    c: ConnectionModel,
    config: ConfigModel,
    batch_id: Option<u64>,
    now: u64,
    later: u64,
)
    ensures
        message_action(c, config, MessageModel::SqlBatch { batch_id }, now, later) matches
            ActionModel::Reply(r) && r is Error,
        acquainted(c, config, MessageModel::SqlBatch { batch_id }) == c,
{
}

/// A client that was let in has a name of one to 128 identifier characters.
pub proof fn law_known_clients_have_a_name(config: ConfigModel, messages: Seq<MessageModel>)
    ensures
        acquainted_all(config, messages).authenticated ==> {
            &&& 1 <= acquainted_all(config, messages).server_id.len() <= 128
            &&& identifier_text(acquainted_all(config, messages).server_id)
            &&& acquainted_all(config, messages).server_name.len() <= 255
        },
    decreases messages.len(),
{
    if messages.len() > 0 {
        law_known_clients_have_a_name(config, messages.drop_last());
        match messages.last() {
            MessageModel::Hello { server_id, .. } => {
                reveal_strlit("unknown");
                law_identifier_shape(text_or_default(server_id, "unknown"@), 128, "unknown"@);
            },
            _ => {},
        }
    }
}

/// Without a token every greeting lets a client in; with one, only that token.
pub proof fn law_token_decides(config: ConfigModel, message: MessageModel)
    requires
        message is Hello,
    ensures
        lets_in(config, message) <==> (!auth_required(config.auth_token) || message->auth == Some(
            config.auth_token,
        )),
{
}

/// A client that was let in shows the name that it gave, character for character,
/// and of one with more than 255 characters the first 255; a client that gave none
/// shows none. It is known by the identifier that it gave.
pub proof fn law_clients_keep_their_names(
    c: ConnectionModel,
    config: ConfigModel,
    message: MessageModel,
)
    requires
        lets_in(config, message),
    ensures
        ({
            let after = acquainted(c, config, message);
            &&& after.authenticated
            &&& message->server_name matches Some(name) ==> name.len() <= 255 ==> after.server_name
                == name
            &&& message->server_name matches Some(name) ==> name.len() > 255 ==> after.server_name
                == name.take(255)
            &&& message->server_name is None ==> after.server_name.len() == 0
            &&& message->server_id matches Some(id) ==> 1 <= id.len() <= 128 && identifier_text(id)
                ==> after.server_id == id
            &&& message->server_id matches Some(id) ==> after.server_id == normalized_identifier(
                id,
                128,
                "unknown"@,
            )
            &&& message->server_id is None ==> after.server_id == "unknown"@
        }),
{
    reveal_strlit("");
    reveal_strlit("unknown");
    match message->server_id {
        Some(id) => {
            if 1 <= id.len() <= 128 && identifier_text(id) {
                law_identifiers_are_kept(id, 128, "unknown"@);
            }
        },
        None => {
            assert(identifier_text("unknown"@));
            law_identifiers_are_kept("unknown"@, 128, "unknown"@);
        },
    }
}

/// Only a greeting that lets the client in changes what is known of it.
pub proof fn law_other_messages_change_nothing(
    c: ConnectionModel,
    config: ConfigModel,
    message: MessageModel,
)
    requires
        !lets_in(config, message),
    ensures
        acquainted(c, config, message) == c,
{
}

/// A greeting with the right token is acknowledged with what it said, and with the
/// name that the client is known by from then on; one with a wrong token is refused
/// and ends the connection, and counts as an error.
pub proof fn law_greetings_are_answered(
    c: ConnectionModel,
    config: ConfigModel,
    message: MessageModel,
    now: u64,
    later: u64,
)
    requires
        message is Hello,
    ensures
        ({
            let action = message_action(c, config, message, now, later);
            &&& lets_in(config, message) ==> {
                &&& action matches ActionModel::Reply(r)
                &&& r is HelloAck
                &&& message->service matches Some(service) ==> r->service == service
                &&& message->service is None ==> r->service == "unknown"@
                &&& message->proto matches Some(proto) ==> r->proto == proto
                &&& message->proto is None ==> r->proto == 1
                &&& r->HelloAck_server_id == acquainted(c, config, message).server_id
                &&& message->ts matches Some(ts) ==> r->HelloAck_ts == ts
                &&& message->ts is None ==> r->HelloAck_ts == now
                &&& r->server_time == later
            }
            &&& !lets_in(config, message) ==> {
                &&& action matches ActionModel::ReplyAndClose(r)
                &&& r == (ResponseModel::Error {
                    batch_id: None,
                    message: "unauthorized"@,
                    ts: now,
                })
            }
            &&& counts_as_error(c, config, message) <==> !lets_in(config, message)
        }),
{
}

/// A batch is taken in as it was sent where the client was let in and sent no more
/// events than allowed; otherwise it is refused under its own number, and counts
/// as an error.
pub proof fn law_batches_are_answered(
    c: ConnectionModel,
    config: ConfigModel,
    message: MessageModel,
    now: u64,
    later: u64,
)
    requires
        message is StatsBatch,
    ensures
        ({
            let action = message_action(c, config, message, now, later);
            let n = message->events.len();
            &&& c.authenticated && n <= config.max_inbound_events ==> {
                &&& action matches ActionModel::TakeIn { batch_id, table, sent_at, events }
                &&& batch_id == message->StatsBatch_batch_id
                &&& table == message->table
                &&& sent_at == message->sent_at
                &&& events == message->events
            }
            &&& !c.authenticated ==> action == ActionModel::Reply(
                ResponseModel::Error {
                    batch_id: message->StatsBatch_batch_id,
                    message: "hello required"@,
                    ts: now,
                },
            )
            &&& c.authenticated && n > config.max_inbound_events ==> action == ActionModel::Reply(
                ResponseModel::Error {
                    batch_id: message->StatsBatch_batch_id,
                    message: "too many events"@,
                    ts: now,
                },
            )
            &&& counts_as_error(c, config, message) <==> !(action is TakeIn)
        }),
{
}

/// Statements of a client's own are refused under their own number, and a question
/// after the service's health is answered to whom was let in and refused to whom
/// was not; neither counts as an error.
pub proof fn law_other_requests_are_answered(
    c: ConnectionModel,
    config: ConfigModel,
    batch_id: Option<u64>,
    now: u64,
    later: u64,
)
    ensures
        message_action(c, config, MessageModel::SqlBatch { batch_id }, now, later)
            == ActionModel::Reply(
            ResponseModel::Error {
                batch_id,
                message: "raw sql_batch is intentionally unsupported; send stats_batch events"@,
                ts: now,
            },
        ),
        c.authenticated ==> message_action(c, config, MessageModel::Health, now, later)
            is ReportHealth,
        !c.authenticated ==> message_action(c, config, MessageModel::Health, now, later)
            == ActionModel::Reply(
            ResponseModel::Error { batch_id: None, message: "hello required"@, ts: now },
        ),
        !counts_as_error(c, config, MessageModel::SqlBatch { batch_id }),
        !counts_as_error(c, config, MessageModel::Health),
{
}

/// A refusal says what it is given to say.
pub proof fn law_refusals_say_why(batch_id: Option<u64>, message: Seq<char>, now: u64)
    ensures
        refusal(batch_id, message, now) == (ResponseModel::Error { batch_id, message, ts: now }),
{
}

/// An error in a request is counted once, and nothing else is.
pub proof fn law_parse_errors_are_counted(stats: ServiceStats)
    ensures
        ({
            let after = parse_error_counted(stats);
            &&& stats.parse_errors < u64::MAX ==> after.parse_errors == stats.parse_errors + 1
            &&& after == ServiceStats { parse_errors: after.parse_errors, ..stats }
        }),
{
}

/// The view of a message holds what the message says.
pub proof fn law_message_view(message: IncomingMessage)
    ensures
        match message {
            IncomingMessage::Hello { service, proto, server_id, server_name, auth, ts } => {
                &&& message@ is Hello
                &&& message@->service == option_text(service)
                &&& message@->proto == proto
                &&& message@->server_id == option_text(server_id)
                &&& message@->server_name == option_text(server_name)
                &&& message@->auth == option_text(auth)
                &&& message@->ts == ts
            },
            IncomingMessage::StatsBatch { batch_id, table, sent_at, events } => {
                &&& message@ is StatsBatch
                &&& message@->StatsBatch_batch_id == batch_id
                &&& message@->table == option_text(table)
                &&& message@->sent_at == sent_at
                &&& message@->events == event_models(events@)
            },
            IncomingMessage::SqlBatch { batch_id } => message@ == (MessageModel::SqlBatch {
                batch_id,
            }),
            IncomingMessage::Health => message@ is Health,
        },
{
}

/// The view of an answer holds what the answer says.
pub proof fn law_response_view(response: Response)
    ensures
        match response {
            Response::HelloAck { service, proto, server_id, ts, server_time } => response@ == (
            ResponseModel::HelloAck {
                service: service@,
                proto,
                server_id: server_id@,
                ts,
                server_time,
            }),
            Response::Ack { batch_id, accepted, executed, db_errors, queue_depth, sent_at, ts } =>
                response@ == (ResponseModel::Ack {
                batch_id,
                accepted,
                executed,
                db_errors,
                queue_depth: queue_depth as nat,
                sent_at,
                ts,
            }),
            Response::Error { batch_id, message, ts } => response@ == (ResponseModel::Error {
                batch_id,
                message: message@,
                ts,
            }),
            Response::Health { queue_depth, queue_dropped, dedupe_events, stats, ts } => response@
                == (ResponseModel::Health {
                queue_depth: queue_depth as nat,
                queue_dropped,
                dedupe_events: dedupe_events as nat,
                stats,
                ts,
            }),
        },
{
}

/// The views of an action and of a connection hold what they say.
pub proof fn law_action_and_connection_views(action: MessageAction, connection: Connection)
    ensures
        match action {
            MessageAction::Reply(r) => action@ == ActionModel::Reply(r@),
            MessageAction::ReplyAndClose(r) => action@ == ActionModel::ReplyAndClose(r@),
            MessageAction::TakeIn { batch_id, table, sent_at, events } => action@ == (
            ActionModel::TakeIn {
                batch_id,
                table: option_text(table),
                sent_at,
                events: event_models(events@),
            }),
            MessageAction::ReportHealth => action@ is ReportHealth,
        },
        connection@.authenticated == connection.authenticated,
        connection@.server_id == connection.server_id@,
        connection@.server_name == connection.server_name@,
        !stranger().authenticated,
        stranger().server_id.len() == 0,
        stranger().server_name.len() == 0,
{
}

/// A client that [`handle_message`] lets in shows the name that it gave, character
/// for character, up to 255 of them, and nothing but a greeting that lets it in
/// changes what is known of it.
pub proof fn law_handled_greetings_keep_names(
    config: Config,
    message: IncomingMessage,
    now: u64,
    later: u64,
)
    ensures
        forall|connection: &mut Connection, stats: &mut ServiceStats, action: MessageAction|
            #[trigger] call_ensures(
                handle_message,
                (connection, &config, message, now, later, stats),
                action,
            ) ==> {
                &&& !lets_in(config@, message@) ==> final(connection)@ == (*connection)@
                &&& lets_in(config@, message@) ==> final(connection).authenticated
                &&& message matches IncomingMessage::Hello { server_name: Some(name), .. }
                    ==> lets_in(config@, message@) && name@.len() <= 255
                    ==> final(connection).server_name@ == name@
                &&& message matches IncomingMessage::Hello { server_name: Some(name), .. }
                    ==> lets_in(config@, message@) && name@.len() > 255
                    ==> final(connection).server_name@ == name@.take(255)
                &&& message matches IncomingMessage::Hello { server_name: None, .. }
                    ==> lets_in(config@, message@)
                    ==> final(connection).server_name@.len() == 0
                &&& message matches IncomingMessage::Hello { server_id: Some(id), .. }
                    ==> lets_in(config@, message@) && identifier_text(id@) && 1 <= id@.len() <= 128
                    ==> final(connection).server_id@ == id@
            },
{
    assert forall|connection: &mut Connection, stats: &mut ServiceStats, action: MessageAction|
        #[trigger] call_ensures(
            handle_message,
            (connection, &config, message, now, later, stats),
            action,
        ) && lets_in(config@, message@) implies {
        &&& final(connection).authenticated
        &&& message matches IncomingMessage::Hello { server_name: Some(name), .. }
            ==> name@.len() <= 255 ==> final(connection).server_name@ == name@
        &&& message matches IncomingMessage::Hello { server_name: Some(name), .. }
            ==> name@.len() > 255 ==> final(connection).server_name@ == name@.take(255)
        &&& message matches IncomingMessage::Hello { server_name: None, .. }
            ==> final(connection).server_name@.len() == 0
        &&& message matches IncomingMessage::Hello { server_id: Some(id), .. }
            ==> identifier_text(id@) && 1 <= id@.len() <= 128
            ==> final(connection).server_id@ == id@
    } by {
        law_clients_keep_their_names((*connection)@, config@, message@);
    }
}

/// What [`batch_acknowledged`] and [`health_report`] answer are the numbers that they
/// are given, each in its own place; where nothing has ended, nothing was executed
/// and nothing failed.
pub proof fn law_answers_hold_the_numbers(
    id: Option<u64>,
    result: EnqueueResult,
    ended: Option<BatchCompletionSnapshot>,
    depth: usize,
    sent: Option<u64>,
    now: u64,
    ack: Response,
    queue: QueueState,
    dedupe: DedupeCache,
    counters: ServiceStats,
    health: Response,
)
    requires
        call_ensures(batch_acknowledged, (id, result, ended, depth, sent, now), ack),
        call_ensures(health_report, (&queue, &dedupe, &counters, now), health),
    ensures
        ack matches Response::Ack {
            batch_id,
            accepted,
            executed,
            db_errors,
            queue_depth,
            sent_at,
            ts,
        } && {
            &&& batch_id == id
            &&& accepted == result.accepted
            &&& ended matches Some(e) ==> executed == e.executed && db_errors == e.db_errors
            &&& ended is None ==> executed == 0 && db_errors == 0
            &&& queue_depth == depth
            &&& sent matches Some(at) ==> sent_at == at
            &&& sent is None ==> sent_at == 0
            &&& ts == now
        },
        health matches Response::Health {
            queue_depth,
            queue_dropped,
            dedupe_events,
            stats,
            ts,
        } && {
            &&& queue_depth == queue.events@.len()
            &&& queue_dropped == queue.dropped
            &&& dedupe_events == dedupe@.order.len()
            &&& stats == counters
            &&& ts == now
        },
{
}

/// Whom [`reject_peer`] turns away: exactly a peer of another machine, where only
/// this one is let in. [`batch_refused`] says why a batch was not taken in.
pub proof fn law_peers_and_batches_are_refused(
    config: Config,
    ip: PeerIp,
    now: u64,
    refused: Option<Response>,
    id: Option<u64>,
    error: EnqueueError,
    answer: Response,
)
    requires
        call_ensures(reject_peer, (&config, ip, now), refused),
        call_ensures(batch_refused, (id, &error, now), answer),
    ensures
        refused is Some <==> config.require_localhost && !loopback(ip),
        refused matches Some(r) ==> (r matches Response::Error { batch_id, message, ts } && {
            &&& batch_id is None
            &&& message@ == "only loopback clients are accepted"@
            &&& ts == now
        }),
        answer matches Response::Error { batch_id, message, ts } && {
            &&& batch_id == id
            &&& message@ == error.message@
            &&& ts == now
        },
{
}

/// What [`handle_frame`] makes of a frame: its text, character for character, where
/// it is well formed, and a refusal that is counted where it is not or is too long.
/// An empty frame is passed over.
pub proof fn law_frames_are_read(read: FrameRead, frame: Vec<u8>, now: u64)
    ensures
        forall|stats: &mut ServiceStats, action: FrameAction|
            #[trigger] call_ensures(handle_frame, (read, &frame, now, stats), action) ==> {
                let held = read is Line && frame@.len() > 0;
                let sound = vstd::utf8::valid_utf8(frame@);
                &&& read is Eof <==> action is Close
                &&& read is Line && frame@.len() == 0 <==> action is Skip
                &&& held && sound ==> (action matches FrameAction::Read(text) && text@
                    == vstd::utf8::decode_utf8(frame@))
                &&& held && !sound ==> (action matches FrameAction::Reply(
                    Response::Error { batch_id: None, message, ts },
                ) && message@ == "invalid utf8"@ && ts == now)
                &&& read is TooLong ==> (action matches FrameAction::Reply(
                    Response::Error { batch_id: None, message, ts },
                ) && message@ == "frame too large"@ && ts == now)
                &&& !(action is Reply) ==> *final(stats) == *stats
                &&& action is Reply && stats.parse_errors < u64::MAX ==> *final(stats) == (
                ServiceStats { parse_errors: (stats.parse_errors + 1) as u64, ..*stats })
            },
{
}

/// A batch that [`handle_message`] lets through is the one that was sent, with all
/// its events in their order; any other is refused under its own number. Who may
/// send one was let in and keeps to the limit.
pub proof fn law_handled_batches_are_those_sent(
    config: Config,
    id: Option<u64>,
    its_table: Option<String>,
    at: Option<u64>,
    sent: Vec<StatsEvent>,
    now: u64,
    later: u64,
    i: int,
)
    ensures
        forall|connection: &mut Connection, stats: &mut ServiceStats, action: MessageAction|
            #[trigger] call_ensures(
                handle_message,
                (
                    connection,
                    &config,
                    IncomingMessage::StatsBatch {
                        batch_id: id,
                        table: its_table,
                        sent_at: at,
                        events: sent,
                    },
                    now,
                    later,
                    stats,
                ),
                action,
            ) ==> {
                let fine = connection.authenticated && sent@.len() <= config.max_inbound_events;
                &&& fine ==> (action matches MessageAction::TakeIn {
                    batch_id,
                    table,
                    sent_at,
                    events,
                } && {
                    &&& batch_id == id
                    &&& option_text(table) == option_text(its_table)
                    &&& sent_at == at
                    &&& events@.len() == sent@.len()
                    &&& 0 <= i < sent@.len() ==> events@[i]@ == sent@[i]@
                })
                &&& !fine ==> (action matches MessageAction::Reply(
                    Response::Error { batch_id, ts, .. },
                ) && batch_id == id && ts == now)
                &&& fine ==> *final(stats) == *stats
                &&& !fine && stats.parse_errors < u64::MAX ==> *final(stats) == (ServiceStats {
                    parse_errors: (stats.parse_errors + 1) as u64,
                    ..*stats
                })
            },
{
    assert forall|list: Seq<StatsEvent>| (#[trigger] event_models(list)).len() == list.len() by {}
    assert forall|list: Seq<StatsEvent>, k: int|
        0 <= k < list.len() implies #[trigger] event_models(list)[k] == list[k]@ by {}
    assert forall|connection: &mut Connection, stats: &mut ServiceStats, action: MessageAction|
        #[trigger] call_ensures(
            handle_message,
            (
                connection,
                &config,
                IncomingMessage::StatsBatch {
                    batch_id: id,
                    table: its_table,
                    sent_at: at,
                    events: sent,
                },
                now,
                later,
                stats,
            ),
            action,
        ) implies (action matches MessageAction::TakeIn { events, .. } ==> 0 <= i < sent@.len()
        ==> event_models(events@)[i] == event_models(sent@)[i]) by {}
}

} // verus!
