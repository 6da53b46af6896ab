use plugin_statistics::database::{DbReply, DbRequest, WriterCache};
use plugin_statistics::event::StatsEvent;
use plugin_statistics::queue::QueuedEvent;
use plugin_statistics::tickrate::Rate;
use plugin_statistics::writer::{finalize_stale_session, WriteRun};

fn rate(value: f64) -> Rate {
    Rate {
        bits: value.to_bits(),
    }
}

fn record(kind: &str, id: &str, server: &str, session: &str, occurred_at: i64) -> QueuedEvent {
    QueuedEvent {
        source_plugin: "plugin".to_string(),
        event: StatsEvent {
            record_type: kind.to_string(),
            event_id: Some(id.to_string()),
            server_id: server.to_string(),
            server_name: format!("{server}-{occurred_at}"),
            host_port: 27015,
            map_session_id: session.to_string(),
            map_name: "cp_badlands".to_string(),
            gamemode: "cp".to_string(),
            source_plugin: "plugin".to_string(),
            event_name: "round_end".to_string(),
            message: format!("message-{id}"),
            end_reason: "map_end".to_string(),
            occurred_at,
            server_tick: 11,
            tick_interval_seconds: rate(0.015),
            expected_tickrate: rate(66.667),
            observed_tickrate: rate(66.2),
            session_average_tickrate: rate(65.5),
            session_minimum_tickrate: rate(60.0),
            session_sample_count: 12,
            ..StatsEvent::default()
        },
        event_id: Some(id.to_string()),
        batch_id: None,
        enqueued_at_ms: 0,
        completion: None,
    }
}

/// Answers identifiers from 1 on and no stale sessions; gives the requests.
fn write_all(run: &mut WriteRun, cache: &mut WriterCache) -> Vec<DbRequest> {
    let mut requests = Vec::new();
    let mut next_id = 1;
    let mut reply = DbReply::Done;
    loop {
        let request = run.step(cache, reply);
        reply = match &request {
            DbRequest::LastInsertId => {
                next_id += 1;
                DbReply::Id(Some(next_id - 1))
            }
            DbRequest::StaleSessions { .. } => DbReply::Sessions(Vec::new()),
            _ => DbReply::Done,
        };
        let finished = matches!(request, DbRequest::Finished);
        requests.push(request);
        if finished {
            return requests;
        }
    }
}

#[test]
fn an_empty_batch_inserts_nothing_and_commits() {
    let mut cache = WriterCache::new();
    let requests = write_all(&mut WriteRun::new(Vec::new()), &mut cache);
    assert!(matches!(
        &requests[..],
        [
            DbRequest::InsertEvents { events },
            DbRequest::InsertTicks { ticks },
            DbRequest::Commit,
            DbRequest::Finished,
        ] if events.is_empty() && ticks.is_empty()
    ));
}

#[test]
fn an_event_is_written_under_its_session() {
    let mut cache = WriterCache::new();
    let mut run = WriteRun::new(vec![record("event", "e1", "srv", "map", 100)]);
    let requests = write_all(&mut run, &mut cache);
    match &requests[0] {
        DbRequest::UpsertServer {
            server_key,
            hostname,
            host_port,
            now,
        } => {
            assert_eq!(server_key, "srv");
            assert_eq!(hostname, "srv-100");
            assert_eq!(*host_port, 27015);
            assert_eq!(*now, 100);
        }
        other => panic!("{other:?}"),
    }
    assert!(matches!(requests[1], DbRequest::LastInsertId));
    match &requests[2] {
        DbRequest::UpsertSession {
            session_key,
            server_id,
            host_port,
            map_name,
            gamemode,
            started_at,
            start_tick,
            tick_interval,
            expected_tickrate,
            now,
        } => {
            assert_eq!(session_key, "map");
            assert_eq!(*server_id, 1);
            assert_eq!(*host_port, 27015);
            assert_eq!(map_name, "cp_badlands");
            assert_eq!(gamemode, "cp");
            assert_eq!(*started_at, 100);
            assert_eq!(*start_tick, 11);
            assert_eq!(*tick_interval, rate(0.015));
            assert_eq!(*expected_tickrate, rate(66.667));
            assert_eq!(*now, 100);
        }
        other => panic!("{other:?}"),
    }
    assert!(matches!(requests[3], DbRequest::LastInsertId));
    match &requests[4] {
        DbRequest::TouchServer {
            server_id,
            hostname,
            host_port,
            last_seen_at,
        } => {
            assert_eq!(*server_id, 1);
            assert_eq!(hostname, "srv-100");
            assert_eq!(*host_port, 27015);
            assert_eq!(*last_seen_at, 100);
        }
        other => panic!("{other:?}"),
    }
    match &requests[5] {
        DbRequest::InsertEvents { events } => {
            assert_eq!(events.len(), 1);
            let row = &events[0];
            assert_eq!(row.event_id, "e1");
            assert_eq!(row.session_id, 2);
            assert_eq!(row.source_plugin, "plugin");
            assert_eq!(row.event_name, "round_end");
            assert_eq!(row.message, "message-e1");
            assert_eq!(row.occurred_at, 100);
            assert_eq!(row.server_tick, 11);
            assert_eq!(row.tick_interval, rate(0.015));
            assert_eq!(row.expected_tickrate, rate(66.667));
            assert_eq!(row.observed_tickrate, rate(66.2));
        }
        other => panic!("{other:?}"),
    }
    assert!(matches!(&requests[6], DbRequest::InsertTicks { ticks } if ticks.is_empty()));
    assert!(matches!(requests[7], DbRequest::Commit));
    assert_eq!(requests.len(), 9);
    assert_eq!(cache.server("srv"), Some(1));
    assert_eq!(cache.session(1, "map"), Some(2));
    assert_eq!(cache.session(1, "other"), None);
    let items = run.into_items();
    assert_eq!(items.len(), 1);
    assert_eq!(items[0].event_id.as_deref(), Some("e1"));
}

#[test]
fn known_servers_and_sessions_are_not_asked_for() {
    let mut cache = WriterCache::new();
    cache.keep_server("srv", 7);
    cache.keep_session(7, "map", 9);
    let requests = write_all(
        &mut WriteRun::new(vec![
            record("event", "e1", "srv", "map", 100),
            record("tick_sample", "t1", "srv", "map", 90),
            record("other", "e2", "srv", "map", 95),
        ]),
        &mut cache,
    );
    assert_eq!(requests.len(), 5);
    assert!(matches!(
        requests[0],
        DbRequest::TouchServer { server_id: 7, last_seen_at: 100, .. }
    ));
    match &requests[1] {
        DbRequest::InsertEvents { events } => {
            let rows: Vec<_> = events.iter().map(|r| (r.event_id.as_str(), r.session_id)).collect();
            assert_eq!(rows, [("e1", 9), ("e2", 9)]);
        }
        other => panic!("{other:?}"),
    }
    match &requests[2] {
        DbRequest::InsertTicks { ticks } => {
            assert_eq!(ticks.len(), 1);
            assert_eq!(ticks[0].event_id, "t1");
            assert_eq!(ticks[0].session_id, 9);
            assert_eq!(ticks[0].sampled_at, 90);
            assert_eq!(ticks[0].server_tick, 11);
            assert_eq!(ticks[0].tick_interval, rate(0.015));
            assert_eq!(ticks[0].expected_tickrate, rate(66.667));
            assert_eq!(ticks[0].observed_tickrate, rate(66.2));
        }
        other => panic!("{other:?}"),
    }
}

#[test]
fn the_latest_sign_of_life_counts() {
    let mut cache = WriterCache::new();
    let requests = write_all(
        &mut WriteRun::new(vec![
            record("event", "1", "a", "m", 10),
            record("event", "2", "b", "m", 50),
            record("event", "3", "a", "m", 30),
            record("event", "4", "a", "m", 20),
            record("event", "5", "b", "m", 50),
        ]),
        &mut cache,
    );
    let touched: Vec<(u64, String, i64)> = requests
        .iter()
        .filter_map(|request| match request {
            DbRequest::TouchServer {
                server_id,
                hostname,
                last_seen_at,
                ..
            } => Some((*server_id, hostname.clone(), *last_seen_at)),
            _ => None,
        })
        .collect();
    assert_eq!(
        touched,
        [(1, "a-30".to_string(), 30), (3, "b-50".to_string(), 50)]
    );
}

#[test]
fn the_end_of_a_session_is_stored() {
    let mut cache = WriterCache::new();
    cache.keep_server("srv", 7);
    cache.keep_session(7, "map", 9);
    let mut ended = record("session_end", "e", "srv", "map", 100);
    ended.event.session_ended_at = 80;
    let requests = write_all(
        &mut WriteRun::new(vec![ended, record("session_end", "f", "srv", "map", 100)]),
        &mut cache,
    );
    match &requests[0] {
        DbRequest::EndSession {
            session_id,
            ended_at,
            end_reason,
            end_inferred,
            end_tick,
            average_tickrate,
            minimum_tickrate,
            sample_count,
        } => {
            assert_eq!(*session_id, 9);
            assert_eq!(*ended_at, 80);
            assert_eq!(end_reason, "map_end");
            assert!(!end_inferred);
            assert_eq!(*end_tick, 11);
            assert_eq!(*average_tickrate, rate(65.5));
            assert_eq!(*minimum_tickrate, rate(60.0));
            assert_eq!(*sample_count, 12);
        }
        other => panic!("{other:?}"),
    }
    assert!(matches!(requests[1], DbRequest::EndSession { ended_at: 100, .. }));
    assert!(matches!(&requests[3], DbRequest::InsertEvents { events } if events.is_empty()));
}

#[test]
fn a_new_session_ends_the_stale_ones() {
    let mut cache = WriterCache::new();
    cache.keep_server("srv", 7);
    cache.keep_session(7, "map", 9);
    let mut started = record("session_start", "e", "srv", "map", 100);
    started.event.session_started_at = 95;
    let mut run = WriteRun::new(vec![started]);
    assert!(matches!(
        run.step(&mut cache, DbReply::Done),
        DbRequest::StaleSessions { server_id: 7, session_id: 9 }
    ));
    assert!(matches!(
        run.step(&mut cache, DbReply::Sessions(vec![(4, 50), (5, 200)])),
        DbRequest::LastEventAt { session_id: 4 }
    ));
    assert!(matches!(
        run.step(&mut cache, DbReply::Time(Some(60))),
        DbRequest::LastTickAt { session_id: 4 }
    ));
    assert!(matches!(
        run.step(&mut cache, DbReply::Time(Some(70))),
        DbRequest::TickAggregate { session_id: 4 }
    ));
    match run.step(
        &mut cache,
        DbReply::Aggregate(Some((Some(rate(66.0)), Some(64.0).map(rate), 3))),
    ) {
        DbRequest::CloseSession {
            session_id,
            ended_at,
            average,
            minimum,
            samples,
        } => {
            assert_eq!(session_id, 4);
            assert_eq!(ended_at, 70);
            assert_eq!(average, Some(rate(66.0)));
            assert_eq!(minimum, Some(rate(64.0)));
            assert_eq!(samples, 3);
        }
        other => panic!("{other:?}"),
    }
    assert!(matches!(
        run.step(&mut cache, DbReply::Done),
        DbRequest::LastEventAt { session_id: 5 }
    ));
    assert!(matches!(
        run.step(&mut cache, DbReply::Time(None)),
        DbRequest::LastTickAt { session_id: 5 }
    ));
    assert!(matches!(
        run.step(&mut cache, DbReply::Time(None)),
        DbRequest::TickAggregate { session_id: 5 }
    ));
    assert!(matches!(
        run.step(&mut cache, DbReply::Aggregate(None)),
        DbRequest::CloseSession {
            session_id: 5,
            ended_at: 200,
            average: None,
            minimum: None,
            samples: 0,
        }
    ));
    match run.step(&mut cache, DbReply::Done) {
        DbRequest::StartSession {
            session_id,
            map_name,
            gamemode,
            started_at,
            start_tick,
            tick_interval,
            expected_tickrate,
            now,
        } => {
            assert_eq!(session_id, 9);
            assert_eq!(map_name, "cp_badlands");
            assert_eq!(gamemode, "cp");
            assert_eq!(started_at, 95);
            assert_eq!(start_tick, 11);
            assert_eq!(tick_interval, rate(0.015));
            assert_eq!(expected_tickrate, rate(66.667));
            assert_eq!(now, 100);
        }
        other => panic!("{other:?}"),
    }
    assert!(matches!(
        run.step(&mut cache, DbReply::Done),
        DbRequest::TouchServer { .. }
    ));
}

#[test]
fn a_missing_identifier_counts_as_zero() {
    let mut cache = WriterCache::new();
    let mut run = WriteRun::new(vec![record("event", "e", "srv", "map", 1)]);
    run.step(&mut cache, DbReply::Done);
    run.step(&mut cache, DbReply::Done);
    assert!(matches!(
        run.step(&mut cache, DbReply::Id(None)),
        DbRequest::UpsertSession { server_id: 0, .. }
    ));
    assert_eq!(cache.server("srv"), Some(0));
}

#[test]
fn an_event_without_an_identifier_has_an_empty_one() {
    let mut cache = WriterCache::new();
    let mut item = record("event", "e", "srv", "map", 1);
    item.event.event_id = None;
    let requests = write_all(&mut WriteRun::new(vec![item]), &mut cache);
    assert!(requests.iter().any(
        |r| matches!(r, DbRequest::InsertEvents { events } if events[0].event_id.is_empty())
    ));
}

#[test]
fn stale_sessions_end_with_what_is_known_of_them() {
    assert_eq!(finalize_stale_session(Some(60), Some(70), 50, 100), 70);
    assert_eq!(finalize_stale_session(Some(80), Some(70), 50, 100), 80);
    assert_eq!(finalize_stale_session(Some(60), None, 50, 100), 60);
    assert_eq!(finalize_stale_session(None, Some(61), 50, 100), 61);
    assert_eq!(finalize_stale_session(None, None, 50, 100), 50);
    assert_eq!(finalize_stale_session(Some(120), None, 50, 100), 100);
    assert_eq!(finalize_stale_session(Some(10), None, 50, 100), 50);
    assert_eq!(finalize_stale_session(Some(60), None, 50, 40), 50);
}

#[test]
fn a_cleared_cache_knows_nothing() {
    let mut cache = WriterCache::new();
    cache.keep_server("srv", 7);
    cache.keep_session(7, "map", 9);
    cache.keep_session(7, "map2", 10);
    cache.keep_session(8, "map", 11);
    assert_eq!(cache.session(7, "map"), Some(9));
    assert_eq!(cache.session(7, "map2"), Some(10));
    assert_eq!(cache.session(8, "map"), Some(11));
    cache.clear();
    assert_eq!(cache.server("srv"), None);
    assert_eq!(cache.session(7, "map"), None);
}

#[test]
fn a_run_comes_to_its_commit_and_keeps_its_batch() {
    let kinds = ["event", "session_start", "tick_sample", "session_end"];
    let batch = (0..20)
        .map(|n| record(kinds[n % 4], &n.to_string(), &format!("s{}", n % 3), "m", n as i64))
        .collect();
    let mut cache = WriterCache::new();
    let mut run = WriteRun::new(batch);
    let mut steps = 0;
    let mut next_id = 0;
    loop {
        next_id += 1;
        let reply = match steps % 3 {
            0 => DbReply::Sessions(vec![(1, 2), (3, 4)]),
            1 => DbReply::Id(Some(next_id)),
            _ => DbReply::Time(Some(5)),
        };
        steps += 1;
        assert!(steps < 1000);
        if matches!(run.step(&mut cache, reply), DbRequest::Commit) {
            break;
        }
    }
    let ids: Vec<String> = run.into_items().into_iter().map(|i| i.event_id.unwrap()).collect();
    let expected: Vec<String> = (0..20).map(|n| n.to_string()).collect();
    assert_eq!(ids, expected);
}
