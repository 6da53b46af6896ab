//! Statistics events and the normal form in which they are stored.

use crate::clock::{now_unix_i64, shown_signed};
use crate::text::{
    decimal, limit, limit_chars, option_text, push_signed, same_text, signed_decimal,
};
use crate::tickrate::{
    cleaned_rate, finite_nonnegative, law_valid_rates_are_kept, zero_rate, Rate,
};
use vstd::prelude::*;

verus! {

/// One record that a plugin sends: an event, a tick sample, or the start or end
/// of a map session.
#[derive(Debug)]
pub struct StatsEvent {
    pub table: String,
    pub record_type: String,
    pub server_id: String,
    pub server_name: String,
    pub source_plugin: String,
    pub event_id: Option<String>,
    pub occurred_at: i64,
    pub host_port: i32,
    pub map_session_id: String,
    pub map_name: String,
    pub gamemode: String,
    pub event_name: String,
    pub message: String,
    pub weekday: i32,
    pub hour_of_day: i32,
    pub server_tick: i64,
    pub tick_interval_seconds: Rate,
    pub expected_tickrate: Rate,
    pub observed_tickrate: Rate,
    pub session_started_at: i64,
    pub session_ended_at: i64,
    pub session_sample_count: i32,
    pub session_average_tickrate: Rate,
    pub session_minimum_tickrate: Rate,
    pub end_reason: String,
}

/// What an event says, with its strings as sequences of characters.
#[verifier::ext_equal]
pub struct EventModel {
    pub table: Seq<char>,
    pub record_type: Seq<char>,
    pub server_id: Seq<char>,
    pub server_name: Seq<char>,
    pub source_plugin: Seq<char>,
    pub event_id: Option<Seq<char>>,
    pub occurred_at: i64,
    pub host_port: i32,
    pub map_session_id: Seq<char>,
    pub map_name: Seq<char>,
    pub gamemode: Seq<char>,
    pub event_name: Seq<char>,
    pub message: Seq<char>,
    pub weekday: i32,
    pub hour_of_day: i32,
    pub server_tick: i64,
    pub tick_interval_seconds: Rate,
    pub expected_tickrate: Rate,
    pub observed_tickrate: Rate,
    pub session_started_at: i64,
    pub session_ended_at: i64,
    pub session_sample_count: i32,
    pub session_average_tickrate: Rate,
    pub session_minimum_tickrate: Rate,
    pub end_reason: Seq<char>,
}

impl View for StatsEvent {
    type V = EventModel;

    open spec fn view(&self) -> EventModel {
        EventModel {
            table: self.table@,
            record_type: self.record_type@,
            server_id: self.server_id@,
            server_name: self.server_name@,
            source_plugin: self.source_plugin@,
            event_id: option_text(self.event_id),
            occurred_at: self.occurred_at,
            host_port: self.host_port,
            map_session_id: self.map_session_id@,
            map_name: self.map_name@,
            gamemode: self.gamemode@,
            event_name: self.event_name@,
            message: self.message@,
            weekday: self.weekday,
            hour_of_day: self.hour_of_day,
            server_tick: self.server_tick,
            tick_interval_seconds: self.tick_interval_seconds,
            expected_tickrate: self.expected_tickrate,
            observed_tickrate: self.observed_tickrate,
            session_started_at: self.session_started_at,
            session_ended_at: self.session_ended_at,
            session_sample_count: self.session_sample_count,
            session_average_tickrate: self.session_average_tickrate,
            session_minimum_tickrate: self.session_minimum_tickrate,
            end_reason: self.end_reason@,
        }
    }
}

/// An event that says nothing: empty texts, zero numbers, no identifier.
pub open spec fn empty_event() -> EventModel {
    EventModel {
        table: Seq::empty(),
        record_type: Seq::empty(),
        server_id: Seq::empty(),
        server_name: Seq::empty(),
        source_plugin: Seq::empty(),
        event_id: None,
        occurred_at: 0,
        host_port: 0,
        map_session_id: Seq::empty(),
        map_name: Seq::empty(),
        gamemode: Seq::empty(),
        event_name: Seq::empty(),
        message: Seq::empty(),
        weekday: 0,
        hour_of_day: 0,
        server_tick: 0,
        tick_interval_seconds: zero_rate(),
        expected_tickrate: zero_rate(),
        observed_tickrate: zero_rate(),
        session_started_at: 0,
        session_ended_at: 0,
        session_sample_count: 0,
        session_average_tickrate: zero_rate(),
        session_minimum_tickrate: zero_rate(),
        end_reason: Seq::empty(),
    }
}

impl Default for StatsEvent {
    fn default() -> (r: Self)
        ensures
            r@ == empty_event(),
    {
        StatsEvent {
            table: String::new(),
            record_type: String::new(),
            server_id: String::new(),
            server_name: String::new(),
            source_plugin: String::new(),
            event_id: None,
            occurred_at: 0,
            host_port: 0,
            map_session_id: String::new(),
            map_name: String::new(),
            gamemode: String::new(),
            event_name: String::new(),
            message: String::new(),
            weekday: 0,
            hour_of_day: 0,
            server_tick: 0,
            tick_interval_seconds: Rate { bits: 0 },
            expected_tickrate: Rate { bits: 0 },
            observed_tickrate: Rate { bits: 0 },
            session_started_at: 0,
            session_ended_at: 0,
            session_sample_count: 0,
            session_average_tickrate: Rate { bits: 0 },
            session_minimum_tickrate: Rate { bits: 0 },
            end_reason: String::new(),
        }
    }
}

/// A copy of an optional string.
pub fn clone_option(value: &Option<String>) -> (r: Option<String>)
    ensures
        r == *value,
{
    match value {
        Some(s) => Some(s.clone()),
        None => None,
    }
}

impl Clone for StatsEvent {
    fn clone(&self) -> (r: Self)
        ensures
            r == *self,
    {
        StatsEvent {
            table: self.table.clone(),
            record_type: self.record_type.clone(),
            server_id: self.server_id.clone(),
            server_name: self.server_name.clone(),
            source_plugin: self.source_plugin.clone(),
            event_id: clone_option(&self.event_id),
            occurred_at: self.occurred_at,
            host_port: self.host_port,
            map_session_id: self.map_session_id.clone(),
            map_name: self.map_name.clone(),
            gamemode: self.gamemode.clone(),
            event_name: self.event_name.clone(),
            message: self.message.clone(),
            weekday: self.weekday,
            hour_of_day: self.hour_of_day,
            server_tick: self.server_tick,
            tick_interval_seconds: self.tick_interval_seconds,
            expected_tickrate: self.expected_tickrate,
            observed_tickrate: self.observed_tickrate,
            session_started_at: self.session_started_at,
            session_ended_at: self.session_ended_at,
            session_sample_count: self.session_sample_count,
            session_average_tickrate: self.session_average_tickrate,
            session_minimum_tickrate: self.session_minimum_tickrate,
            end_reason: self.end_reason.clone(),
        }
    }
}

/// The kind of a record that names no other kind.
pub fn default_record_type() -> (r: String)
    ensures
        r@ == "event"@,
{
    "event".to_owned()
}

/// The four kinds of record.
pub open spec fn known_record_type(kind: Seq<char>) -> bool {
    kind == "event"@ || kind == "session_start"@ || kind == "session_end"@ || kind
        == "tick_sample"@
}

/// Whether `kind` is one of the four kinds of record.
pub fn is_known_record_type(kind: &str) -> (r: bool)
    ensures
        r == known_record_type(kind@),
{
    same_text(kind, "event") || same_text(kind, "session_start") || same_text(kind, "session_end")
        || same_text(kind, "tick_sample")
}

/// `text`, or `fallback` where it is empty.
pub open spec fn or_text(text: Seq<char>, fallback: Seq<char>) -> Seq<char> {
    if text.len() == 0 {
        fallback
    } else {
        text
    }
}

/// The session key of an event that names none: its port and the later of its
/// session start and its own time.
pub open spec fn derived_session(host_port: i32, started_at: i64, occurred_at: i64) -> Seq<char> {
    let at = if started_at >= occurred_at {
        started_at
    } else {
        occurred_at
    };
    signed_decimal(host_port as int) + "-"@ + signed_decimal(at as int)
}

/// `n` where it lies in `0..=max`, zero elsewhere.
pub open spec fn in_range_or_zero(n: i32, max: i32) -> i32 {
    if 0 <= n <= max {
        n
    } else {
        0
    }
}

/// The normal form of an event that is handled at time `now`.
pub open spec fn normalized(e: EventModel, now: i64) -> EventModel {
    let occurred_at = if e.occurred_at <= 0 {
        now
    } else {
        e.occurred_at
    };
    EventModel {
        table: Seq::empty(),
        record_type: if known_record_type(e.record_type) {
            e.record_type
        } else {
            "event"@
        },
        server_id: limit(e.server_id, 128),
        server_name: limit(e.server_name, 255),
        source_plugin: limit(e.source_plugin, 64),
        event_id: e.event_id,
        occurred_at,
        host_port: e.host_port,
        map_session_id: or_text(
            limit(e.map_session_id, 128),
            derived_session(e.host_port, e.session_started_at, occurred_at),
        ),
        map_name: limit(e.map_name, 128),
        gamemode: limit(e.gamemode, 64),
        event_name: or_text(limit(e.event_name, 64), "event"@),
        message: limit(e.message, 512),
        weekday: in_range_or_zero(e.weekday, 6),
        hour_of_day: in_range_or_zero(e.hour_of_day, 23),
        server_tick: if e.server_tick < 0 {
            0
        } else {
            e.server_tick
        },
        tick_interval_seconds: cleaned_rate(e.tick_interval_seconds),
        expected_tickrate: cleaned_rate(e.expected_tickrate),
        observed_tickrate: cleaned_rate(e.observed_tickrate),
        session_started_at: e.session_started_at,
        session_ended_at: e.session_ended_at,
        session_sample_count: e.session_sample_count,
        session_average_tickrate: cleaned_rate(e.session_average_tickrate),
        session_minimum_tickrate: cleaned_rate(e.session_minimum_tickrate),
        end_reason: limit(e.end_reason, 32),
    }
}

/// Brings an event into normal form, with `now` for a missing time.
pub fn normalize_event_at(event: &mut StatsEvent, now: i64)
    ensures
        final(event)@ == normalized(old(event)@, now),
{
    if event.occurred_at <= 0 {
        event.occurred_at = now;
    }
    event.table = String::new();
    if !is_known_record_type(event.record_type.as_str()) {
        event.record_type = default_record_type();
    }
    event.server_id = limit_chars(event.server_id.as_str(), 128);
    event.server_name = limit_chars(event.server_name.as_str(), 255);
    event.source_plugin = limit_chars(event.source_plugin.as_str(), 64);
    event.map_session_id = limit_chars(event.map_session_id.as_str(), 128);
    if event.map_session_id.as_str().is_empty() {
        let at: i64 = if event.session_started_at >= event.occurred_at {
            event.session_started_at
        } else {
            event.occurred_at
        };
        let mut session = String::new();
        push_signed(&mut session, event.host_port as i64);
        session.append("-");
        push_signed(&mut session, at);
        assert(session@ == derived_session(
            event.host_port,
            event.session_started_at,
            event.occurred_at,
        ));
        event.map_session_id = session;
    }
    event.map_name = limit_chars(event.map_name.as_str(), 128);
    event.gamemode = limit_chars(event.gamemode.as_str(), 64);
    event.event_name = limit_chars(event.event_name.as_str(), 64);
    if event.event_name.as_str().is_empty() {
        event.event_name = "event".to_owned();
    }
    event.message = limit_chars(event.message.as_str(), 512);
    event.end_reason = limit_chars(event.end_reason.as_str(), 32);
    if event.server_tick < 0 {
        event.server_tick = 0;
    }
    event.tick_interval_seconds = finite_nonnegative(event.tick_interval_seconds);
    event.expected_tickrate = finite_nonnegative(event.expected_tickrate);
    event.observed_tickrate = finite_nonnegative(event.observed_tickrate);
    event.session_average_tickrate = finite_nonnegative(event.session_average_tickrate);
    event.session_minimum_tickrate = finite_nonnegative(event.session_minimum_tickrate);
    if event.weekday < 0 || event.weekday > 6 {
        event.weekday = 0;
    }
    if event.hour_of_day < 0 || event.hour_of_day > 23 {
        event.hour_of_day = 0;
    }
}

/// Brings an event into normal form; the clock is read where the event has no
/// time of its own.
pub fn normalize_event(event: &mut StatsEvent)
    ensures
        old(event).occurred_at <= 0 ==> exists|now: i64| #[trigger]
            shown_signed(now) && final(event)@ == normalized(old(event)@, now),
        old(event).occurred_at > 0 ==> final(event)@ == normalized(old(event)@, 0),
{
    let now: i64 = if event.occurred_at <= 0 {
        now_unix_i64()
    } else {
        event.occurred_at
    };
    normalize_event_at(event, now);
}

/// Ten to the power of `k`.
spec fn power_of_ten(k: nat) -> nat
    decreases k,
{
    if k == 0 {
        1
    } else {
        10 * power_of_ten((k - 1) as nat)
    }
}

proof fn lemma_decimal_len(n: nat, k: nat)
    requires
        k >= 1,
        n < power_of_ten(k),
    ensures
        1 <= decimal(n).len() <= k,
    decreases k,
{
    if n >= 10 {
        assert(k >= 2) by {
            reveal_with_fuel(power_of_ten, 2);
        }
        lemma_decimal_len(n / 10, (k - 1) as nat);
    }
}

/// The decimal digits of a number, with its sign, are twenty at most.
pub proof fn law_signed_decimal_is_short(n: i64)
    ensures
        1 <= signed_decimal(n as int).len() <= 20,
{
    assert(power_of_ten(19) == 10_000_000_000_000_000_000nat) by {
        reveal_with_fuel(power_of_ten, 20);
    }
    if n < 0 {
        lemma_decimal_len((-n) as nat, 19);
    } else {
        lemma_decimal_len(n as nat, 19);
    }
}

/// Every stored text keeps to its column, the texts that must not be empty are
/// not, and the numbers lie in their ranges.
pub proof fn law_normal_form_bounds(e: EventModel, now: i64)
    ensures
        ({
            let n = normalized(e, now);
            &&& known_record_type(n.record_type)
            &&& n.table.len() == 0
            &&& n.server_id.len() <= 128
            &&& n.server_name.len() <= 255
            &&& n.source_plugin.len() <= 64
            &&& 1 <= n.map_session_id.len() <= 128
            &&& n.map_name.len() <= 128
            &&& n.gamemode.len() <= 64
            &&& 1 <= n.event_name.len() <= 64
            &&& n.message.len() <= 512
            &&& n.end_reason.len() <= 32
            &&& 0 <= n.weekday <= 6
            &&& 0 <= n.hour_of_day <= 23
            &&& n.server_tick >= 0
            &&& n.tick_interval_seconds.finite_and_nonnegative()
            &&& n.expected_tickrate.finite_and_nonnegative()
            &&& n.observed_tickrate.finite_and_nonnegative()
            &&& n.session_average_tickrate.finite_and_nonnegative()
            &&& n.session_minimum_tickrate.finite_and_nonnegative()
        }),
{
    reveal_strlit("event");
    reveal_strlit("-");
    law_signed_decimal_is_short(e.host_port as i64);
    law_signed_decimal_is_short(e.session_started_at);
    law_signed_decimal_is_short(e.occurred_at);
    law_signed_decimal_is_short(now);
}

/// An event in normal form that has a time stays as it is, whenever it is
/// normalised again.
pub proof fn law_normalize_twice(e: EventModel, now: i64, later: i64)
    requires
        e.occurred_at > 0 || now > 0,
    ensures
        normalized(normalized(e, now), later) == normalized(e, now),
{
    law_normal_form_bounds(e, now);
}

/// Each text of an event that is within its limit is kept as it is, and of a
/// longer one the beginning.
pub proof fn law_texts_are_kept(e: EventModel, now: i64)
    ensures
        e.server_id.len() <= 128 ==> normalized(e, now).server_id == e.server_id,
        e.server_id.len() > 128 ==> normalized(e, now).server_id == e.server_id.take(128),
        e.server_name.len() <= 255 ==> normalized(e, now).server_name == e.server_name,
        e.server_name.len() > 255 ==> normalized(e, now).server_name == e.server_name.take(255),
        e.source_plugin.len() <= 64 ==> normalized(e, now).source_plugin == e.source_plugin,
        e.source_plugin.len() > 64 ==> normalized(e, now).source_plugin == e.source_plugin.take(64),
        e.map_name.len() <= 128 ==> normalized(e, now).map_name == e.map_name,
        e.map_name.len() > 128 ==> normalized(e, now).map_name == e.map_name.take(128),
        e.gamemode.len() <= 64 ==> normalized(e, now).gamemode == e.gamemode,
        e.gamemode.len() > 64 ==> normalized(e, now).gamemode == e.gamemode.take(64),
        e.message.len() <= 512 ==> normalized(e, now).message == e.message,
        e.message.len() > 512 ==> normalized(e, now).message == e.message.take(512),
        e.end_reason.len() <= 32 ==> normalized(e, now).end_reason == e.end_reason,
        e.end_reason.len() > 32 ==> normalized(e, now).end_reason == e.end_reason.take(32),
        1 <= e.map_session_id.len() <= 128 ==> normalized(e, now).map_session_id
            == e.map_session_id,
        e.map_session_id.len() > 128 ==> normalized(e, now).map_session_id
            == e.map_session_id.take(128),
        1 <= e.event_name.len() <= 64 ==> normalized(e, now).event_name == e.event_name,
        e.event_name.len() > 64 ==> normalized(e, now).event_name == e.event_name.take(64),
        e.event_name.len() == 0 ==> normalized(e, now).event_name == "event"@,
        e.record_type == "event"@ || e.record_type == "session_start"@ || e.record_type
            == "session_end"@ || e.record_type == "tick_sample"@ ==> normalized(e, now).record_type
            == e.record_type,
        e.record_type != "session_start"@ && e.record_type != "session_end"@ && e.record_type
            != "tick_sample"@ ==> normalized(e, now).record_type == "event"@,
        normalized(e, now).table.len() == 0,
        normalized(e, now).event_id == e.event_id,
{
}

/// Each number of an event that is within its range is kept as it is, and one that
/// is not is zero; only an event without a time gets that of the clock.
pub proof fn law_numbers_are_kept(e: EventModel, now: i64)
    ensures
        e.occurred_at > 0 ==> normalized(e, now).occurred_at == e.occurred_at,
        e.occurred_at <= 0 ==> normalized(e, now).occurred_at == now,
        normalized(e, now).host_port == e.host_port,
        0 <= e.weekday <= 6 ==> normalized(e, now).weekday == e.weekday,
        e.weekday < 0 || e.weekday > 6 ==> normalized(e, now).weekday == 0,
        0 <= e.hour_of_day <= 23 ==> normalized(e, now).hour_of_day == e.hour_of_day,
        e.hour_of_day < 0 || e.hour_of_day > 23 ==> normalized(e, now).hour_of_day == 0,
        e.server_tick >= 0 ==> normalized(e, now).server_tick == e.server_tick,
        e.server_tick < 0 ==> normalized(e, now).server_tick == 0,
        normalized(e, now).session_started_at == e.session_started_at,
        normalized(e, now).session_ended_at == e.session_ended_at,
        normalized(e, now).session_sample_count == e.session_sample_count,
{
}

/// Each rate of an event that is finite and not negative is kept as it is, bit for
/// bit and in its own place; any other is zero.
pub proof fn law_rates_are_kept(e: EventModel, now: i64)
    ensures
        e.tick_interval_seconds.bits < 0x7ff0_0000_0000_0000
            || e.tick_interval_seconds.bits == 0x8000_0000_0000_0000
            ==> normalized(e, now).tick_interval_seconds == e.tick_interval_seconds,
        e.tick_interval_seconds.bits >= 0x7ff0_0000_0000_0000
            && e.tick_interval_seconds.bits != 0x8000_0000_0000_0000
            ==> normalized(e, now).tick_interval_seconds.bits == 0,
        e.expected_tickrate.bits < 0x7ff0_0000_0000_0000
            || e.expected_tickrate.bits == 0x8000_0000_0000_0000
            ==> normalized(e, now).expected_tickrate == e.expected_tickrate,
        e.expected_tickrate.bits >= 0x7ff0_0000_0000_0000
            && e.expected_tickrate.bits != 0x8000_0000_0000_0000
            ==> normalized(e, now).expected_tickrate.bits == 0,
        e.observed_tickrate.bits < 0x7ff0_0000_0000_0000
            || e.observed_tickrate.bits == 0x8000_0000_0000_0000
            ==> normalized(e, now).observed_tickrate == e.observed_tickrate,
        e.observed_tickrate.bits >= 0x7ff0_0000_0000_0000
            && e.observed_tickrate.bits != 0x8000_0000_0000_0000
            ==> normalized(e, now).observed_tickrate.bits == 0,
        e.session_average_tickrate.bits < 0x7ff0_0000_0000_0000
            || e.session_average_tickrate.bits == 0x8000_0000_0000_0000
            ==> normalized(e, now).session_average_tickrate == e.session_average_tickrate,
        e.session_average_tickrate.bits >= 0x7ff0_0000_0000_0000
            && e.session_average_tickrate.bits != 0x8000_0000_0000_0000
            ==> normalized(e, now).session_average_tickrate.bits == 0,
        e.session_minimum_tickrate.bits < 0x7ff0_0000_0000_0000
            || e.session_minimum_tickrate.bits == 0x8000_0000_0000_0000
            ==> normalized(e, now).session_minimum_tickrate == e.session_minimum_tickrate,
        e.session_minimum_tickrate.bits >= 0x7ff0_0000_0000_0000
            && e.session_minimum_tickrate.bits != 0x8000_0000_0000_0000
            ==> normalized(e, now).session_minimum_tickrate.bits == 0,
{
    law_valid_rates_are_kept(e.tick_interval_seconds);
    law_valid_rates_are_kept(e.expected_tickrate);
    law_valid_rates_are_kept(e.observed_tickrate);
    law_valid_rates_are_kept(e.session_average_tickrate);
    law_valid_rates_are_kept(e.session_minimum_tickrate);
}

/// An event without a session key is given one from its port and the later of its
/// session's start and its own time, so that events of one port and time share it
/// and others do not.
pub proof fn law_missing_session_key(e: EventModel, now: i64)
    requires
        e.map_session_id.len() == 0,
    ensures
        ({
            let at = if e.occurred_at > 0 {
                e.occurred_at
            } else {
                now
            };
            &&& e.session_started_at >= at ==> normalized(e, now).map_session_id
                == signed_decimal(e.host_port as int) + "-"@ + signed_decimal(
                e.session_started_at as int,
            )
            &&& e.session_started_at < at ==> normalized(e, now).map_session_id == signed_decimal(
                e.host_port as int,
            ) + "-"@ + signed_decimal(at as int)
        }),
{
}

/// The view of an event holds each of its fields as it is.
pub proof fn law_event_view(event: StatsEvent)
    ensures
        event@.table == event.table@,
        event@.record_type == event.record_type@,
        event@.server_id == event.server_id@,
        event@.server_name == event.server_name@,
        event@.source_plugin == event.source_plugin@,
        event@.map_session_id == event.map_session_id@,
        event@.map_name == event.map_name@,
        event@.gamemode == event.gamemode@,
        event@.event_name == event.event_name@,
        event@.message == event.message@,
        event@.end_reason == event.end_reason@,
        event.event_id matches Some(id) ==> event@.event_id == Some(id@),
        event.event_id is None ==> event@.event_id is None,
        event@.occurred_at == event.occurred_at,
        event@.host_port == event.host_port,
        event@.weekday == event.weekday,
        event@.hour_of_day == event.hour_of_day,
        event@.server_tick == event.server_tick,
        event@.session_started_at == event.session_started_at,
        event@.session_ended_at == event.session_ended_at,
        event@.session_sample_count == event.session_sample_count,
        event@.tick_interval_seconds == event.tick_interval_seconds,
        event@.expected_tickrate == event.expected_tickrate,
        event@.observed_tickrate == event.observed_tickrate,
        event@.session_average_tickrate == event.session_average_tickrate,
        event@.session_minimum_tickrate == event.session_minimum_tickrate,
{
}

/// An event of which nothing is said has no texts, and its numbers are zero.
pub proof fn law_empty_event_says_nothing()
    ensures
        ({
            let e = empty_event();
            &&& e.table.len() == 0
            &&& e.record_type.len() == 0
            &&& e.server_id.len() == 0
            &&& e.server_name.len() == 0
            &&& e.source_plugin.len() == 0
            &&& e.event_id is None
            &&& e.occurred_at == 0
            &&& e.host_port == 0
            &&& e.map_session_id.len() == 0
            &&& e.map_name.len() == 0
            &&& e.gamemode.len() == 0
            &&& e.event_name.len() == 0
            &&& e.message.len() == 0
            &&& e.weekday == 0
            &&& e.hour_of_day == 0
            &&& e.server_tick == 0
            &&& e.tick_interval_seconds.bits == 0
            &&& e.expected_tickrate.bits == 0
            &&& e.observed_tickrate.bits == 0
            &&& e.session_started_at == 0
            &&& e.session_ended_at == 0
            &&& e.session_sample_count == 0
            &&& e.session_average_tickrate.bits == 0
            &&& e.session_minimum_tickrate.bits == 0
            &&& e.end_reason.len() == 0
        }),
{
}

/// An event that [`normalize_event_at`] has brought into normal form keeps each text
/// that is within its limit, and the beginning of a longer one.
pub proof fn law_normalizing_keeps_texts(now: i64)
    ensures
        forall|event: &mut StatsEvent|
            #[trigger] call_ensures(normalize_event_at, (event, now), ()) ==> {
                let e = *event;
                let r = *final(event);
                &&& e.map_name@.len() <= 128 ==> r.map_name@ == e.map_name@
                &&& e.map_name@.len() > 128 ==> r.map_name@ == e.map_name@.take(128)
                &&& e.gamemode@.len() <= 64 ==> r.gamemode@ == e.gamemode@
                &&& e.gamemode@.len() > 64 ==> r.gamemode@ == e.gamemode@.take(64)
                &&& e.message@.len() <= 512 ==> r.message@ == e.message@
                &&& e.message@.len() > 512 ==> r.message@ == e.message@.take(512)
                &&& e.end_reason@.len() <= 32 ==> r.end_reason@ == e.end_reason@
                &&& e.end_reason@.len() > 32 ==> r.end_reason@ == e.end_reason@.take(32)
                &&& e.server_id@.len() <= 128 ==> r.server_id@ == e.server_id@
                &&& e.server_id@.len() > 128 ==> r.server_id@ == e.server_id@.take(128)
                &&& e.server_name@.len() <= 255 ==> r.server_name@ == e.server_name@
                &&& e.server_name@.len() > 255 ==> r.server_name@ == e.server_name@.take(255)
                &&& e.source_plugin@.len() <= 64 ==> r.source_plugin@ == e.source_plugin@
                &&& e.source_plugin@.len() > 64 ==> r.source_plugin@ == e.source_plugin@.take(64)
                &&& 1 <= e.map_session_id@.len() <= 128 ==> r.map_session_id@ == e.map_session_id@
                &&& e.map_session_id@.len() > 128
                    ==> r.map_session_id@ == e.map_session_id@.take(128)
                &&& 1 <= e.event_name@.len() <= 64 ==> r.event_name@ == e.event_name@
                &&& e.event_name@.len() > 64 ==> r.event_name@ == e.event_name@.take(64)
                &&& e.event_name@.len() == 0 ==> r.event_name@ == "event"@
                &&& e.record_type@ == "event"@ || e.record_type@ == "session_start"@
                    || e.record_type@ == "session_end"@ || e.record_type@ == "tick_sample"@
                    ==> r.record_type@ == e.record_type@
                &&& e.record_type@ != "session_start"@ && e.record_type@ != "session_end"@
                    && e.record_type@ != "tick_sample"@ ==> r.record_type@ == "event"@
                &&& r.table@.len() == 0
                &&& e.event_id matches Some(id) ==> (r.event_id matches Some(
                    kept,
                ) && kept@ == id@)
                &&& e.event_id is None ==> r.event_id is None
            },
{
}

/// An event that [`normalize_event_at`] has brought into normal form keeps each
/// number that is in its range and each rate that is finite and not negative, in
/// its own place.
pub proof fn law_normalizing_keeps_numbers(now: i64)
    ensures
        forall|event: &mut StatsEvent|
            #[trigger] call_ensures(normalize_event_at, (event, now), ()) ==> {
                let e = *event;
                let r = *final(event);
                &&& e.occurred_at > 0 ==> r.occurred_at == e.occurred_at
                &&& e.occurred_at <= 0 ==> r.occurred_at == now
                &&& r.host_port == e.host_port
                &&& 0 <= e.weekday <= 6 ==> r.weekday == e.weekday
                &&& e.weekday < 0 || e.weekday > 6 ==> r.weekday == 0
                &&& 0 <= e.hour_of_day <= 23 ==> r.hour_of_day == e.hour_of_day
                &&& e.hour_of_day < 0 || e.hour_of_day > 23 ==> r.hour_of_day == 0
                &&& e.server_tick >= 0 ==> r.server_tick == e.server_tick
                &&& e.server_tick < 0 ==> r.server_tick == 0
                &&& r.session_started_at == e.session_started_at
                &&& r.session_ended_at == e.session_ended_at
                &&& r.session_sample_count == e.session_sample_count
                &&& e.tick_interval_seconds.bits < 0x7ff0_0000_0000_0000
                    || e.tick_interval_seconds.bits == 0x8000_0000_0000_0000
                    ==> r.tick_interval_seconds == e.tick_interval_seconds
                &&& e.tick_interval_seconds.bits >= 0x7ff0_0000_0000_0000
                    && e.tick_interval_seconds.bits != 0x8000_0000_0000_0000
                    ==> r.tick_interval_seconds.bits == 0
                &&& e.expected_tickrate.bits < 0x7ff0_0000_0000_0000
                    || e.expected_tickrate.bits == 0x8000_0000_0000_0000
                    ==> r.expected_tickrate == e.expected_tickrate
                &&& e.expected_tickrate.bits >= 0x7ff0_0000_0000_0000
                    && e.expected_tickrate.bits != 0x8000_0000_0000_0000
                    ==> r.expected_tickrate.bits == 0
                &&& e.observed_tickrate.bits < 0x7ff0_0000_0000_0000
                    || e.observed_tickrate.bits == 0x8000_0000_0000_0000
                    ==> r.observed_tickrate == e.observed_tickrate
                &&& e.observed_tickrate.bits >= 0x7ff0_0000_0000_0000
                    && e.observed_tickrate.bits != 0x8000_0000_0000_0000
                    ==> r.observed_tickrate.bits == 0
                &&& e.session_average_tickrate.bits < 0x7ff0_0000_0000_0000
                    || e.session_average_tickrate.bits == 0x8000_0000_0000_0000
                    ==> r.session_average_tickrate == e.session_average_tickrate
                &&& e.session_average_tickrate.bits >= 0x7ff0_0000_0000_0000
                    && e.session_average_tickrate.bits != 0x8000_0000_0000_0000
                    ==> r.session_average_tickrate.bits == 0
                &&& e.session_minimum_tickrate.bits < 0x7ff0_0000_0000_0000
                    || e.session_minimum_tickrate.bits == 0x8000_0000_0000_0000
                    ==> r.session_minimum_tickrate == e.session_minimum_tickrate
                &&& e.session_minimum_tickrate.bits >= 0x7ff0_0000_0000_0000
                    && e.session_minimum_tickrate.bits != 0x8000_0000_0000_0000
                    ==> r.session_minimum_tickrate.bits == 0
            },
{
    assert forall|rate: Rate|
        rate.bits < 0x7ff0_0000_0000_0000 || rate.bits
            == 0x8000_0000_0000_0000 implies #[trigger] cleaned_rate(rate) == rate by {
        law_valid_rates_are_kept(rate);
    }
    assert forall|rate: Rate|
        rate.bits >= 0x7ff0_0000_0000_0000 && rate.bits
            != 0x8000_0000_0000_0000 implies (#[trigger] cleaned_rate(rate)).bits == 0 by {
        law_valid_rates_are_kept(rate);
    }
}

} // verus!
