use plugin_statistics::event::{
    default_record_type, is_known_record_type, normalize_event, normalize_event_at, StatsEvent,
};
use plugin_statistics::text::sanitize_event_id;
use plugin_statistics::tickrate::Rate;

#[test]
fn sanitizes_event_id() {
    assert_eq!(
        sanitize_event_id(Some("abc:123-zz")),
        Some("abc:123-zz".to_string())
    );
    assert_eq!(sanitize_event_id(Some("***")), None);
    assert_eq!(sanitize_event_id(None), None);
}

#[test]
fn normalizes_legacy_event_without_runtime_fields() {
    let mut event = StatsEvent {
        occurred_at: 100,
        host_port: 27015,
        map_name: "koth_viaduct".to_string(),
        event_name: "class_snapshot".to_string(),
        ..StatsEvent::default()
    };

    normalize_event(&mut event);

    assert_eq!(event.record_type, "event");
    assert_eq!(event.map_session_id, "27015-100");
    assert_eq!(f64::from_bits(event.expected_tickrate.bits), 0.0);
}

#[test]
fn record_types_are_kept_or_replaced() {
    assert_eq!(default_record_type(), "event");
    for kind in ["event", "session_start", "session_end", "tick_sample"] {
        assert!(is_known_record_type(kind));
        let mut event = StatsEvent {
            record_type: kind.to_string(),
            ..StatsEvent::default()
        };
        normalize_event_at(&mut event, 5);
        assert_eq!(event.record_type, kind);
    }
    for kind in ["", "Event", "session", "tick_sample "] {
        assert!(!is_known_record_type(kind));
        let mut event = StatsEvent {
            record_type: kind.to_string(),
            ..StatsEvent::default()
        };
        normalize_event_at(&mut event, 5);
        assert_eq!(event.record_type, "event");
    }
}

#[test]
fn texts_are_limited() {
    let long = "ż".repeat(600);
    let mut event = StatsEvent {
        table: "t".to_string(),
        server_id: long.clone(),
        server_name: long.clone(),
        source_plugin: long.clone(),
        map_session_id: long.clone(),
        map_name: long.clone(),
        gamemode: long.clone(),
        event_name: long.clone(),
        message: long.clone(),
        end_reason: long.clone(),
        occurred_at: 1,
        ..StatsEvent::default()
    };
    normalize_event_at(&mut event, 9);
    assert_eq!(event.table, "");
    assert_eq!(event.server_id.chars().count(), 128);
    assert_eq!(event.server_name.chars().count(), 255);
    assert_eq!(event.source_plugin.chars().count(), 64);
    assert_eq!(event.map_session_id.chars().count(), 128);
    assert_eq!(event.map_name.chars().count(), 128);
    assert_eq!(event.gamemode.chars().count(), 64);
    assert_eq!(event.event_name.chars().count(), 64);
    assert_eq!(event.message.chars().count(), 512);
    assert_eq!(event.end_reason.chars().count(), 32);
    assert_eq!(event.occurred_at, 1);
}

#[test]
fn missing_values_are_filled_in() {
    let mut event = StatsEvent {
        occurred_at: -3,
        host_port: -1,
        session_started_at: 50,
        weekday: 7,
        hour_of_day: 24,
        server_tick: -5,
        ..StatsEvent::default()
    };
    normalize_event_at(&mut event, 40);
    assert_eq!(event.occurred_at, 40);
    assert_eq!(event.map_session_id, "-1-50");
    assert_eq!(event.event_name, "event");
    assert_eq!(event.weekday, 0);
    assert_eq!(event.hour_of_day, 0);
    assert_eq!(event.server_tick, 0);

    let mut other = StatsEvent {
        occurred_at: 60,
        weekday: 6,
        hour_of_day: 23,
        server_tick: 12,
        ..StatsEvent::default()
    };
    normalize_event_at(&mut other, 40);
    assert_eq!(other.map_session_id, "0-60");
    assert_eq!(other.weekday, 6);
    assert_eq!(other.hour_of_day, 23);
    assert_eq!(other.server_tick, 12);
}

#[test]
fn rates_are_cleaned() {
    let rate = |value: f64| Rate {
        bits: value.to_bits(),
    };
    let mut event = StatsEvent {
        tick_interval_seconds: rate(0.015),
        expected_tickrate: rate(f64::INFINITY),
        observed_tickrate: rate(f64::NAN),
        session_average_tickrate: rate(-1.0),
        session_minimum_tickrate: rate(66.2),
        ..StatsEvent::default()
    };
    normalize_event_at(&mut event, 1);
    assert_eq!(f64::from_bits(event.tick_interval_seconds.bits), 0.015);
    assert_eq!(event.expected_tickrate, rate(0.0));
    assert_eq!(event.observed_tickrate, rate(0.0));
    assert_eq!(event.session_average_tickrate, rate(0.0));
    assert_eq!(f64::from_bits(event.session_minimum_tickrate.bits), 66.2);
}

#[test]
fn normal_form_is_stable() {
    let mut event = StatsEvent {
        server_id: "s".repeat(200),
        message: "m".repeat(1000),
        ..StatsEvent::default()
    };
    normalize_event_at(&mut event, 77);
    let once = format!("{event:?}");
    let mut again = event.clone();
    normalize_event_at(&mut again, 1000);
    assert_eq!(format!("{again:?}"), once);
}

#[test]
fn the_clock_dates_an_event_without_a_time() {
    let mut event = StatsEvent::default();
    normalize_event(&mut event);
    assert!(event.occurred_at > 1_600_000_000);
}
