use plugin_statistics::config::{
    dead_letter_path, env_bool, env_u16, env_u64, env_usize, is_loopback, is_supported_driver,
    pending_journal_path, protocol_auth_matches, protocol_auth_required, Config, ConfigVars,
    PeerIp,
};

fn unset() -> ConfigVars {
    ConfigVars {
        bind: None,
        db_driver: None,
        db_host: None,
        db_port: None,
        db_name: None,
        db_user: None,
        db_pass: None,
        flush_interval_ms: None,
        max_batch_rows: None,
        queue_limit: None,
        require_localhost: None,
        max_frame_bytes: None,
        max_inbound_events: None,
        dedupe_events: None,
        pending_journal_compact_bytes: None,
        debug: None,
        auth_token: None,
    }
}

fn set(value: &str) -> Option<String> {
    Some(value.to_string())
}

#[test]
fn optional_protocol_auth_matches_only_when_configured() {
    let mut open_cfg = Config::from_env(unset());
    open_cfg.auth_token.clear();
    assert!(protocol_auth_matches(&open_cfg, None));

    open_cfg.auth_token = "secret".to_string();
    assert!(!protocol_auth_matches(&open_cfg, None));
    assert!(!protocol_auth_matches(&open_cfg, Some("wrong")));
    assert!(protocol_auth_matches(&open_cfg, Some("secret")));
}

#[test]
fn blank_token_asks_for_nothing() {
    let mut config = Config::from_env(unset());
    config.auth_token = " \t".to_string();
    assert!(!protocol_auth_required(&config));
    assert!(protocol_auth_matches(&config, Some("anything")));
    config.auth_token = " x ".to_string();
    assert!(protocol_auth_required(&config));
    assert!(!protocol_auth_matches(&config, Some("x")));
    assert!(protocol_auth_matches(&config, Some(" x ")));
}

#[test]
fn settings_have_defaults() {
    let config = Config::from_env(unset());
    assert_eq!(config.bind, "127.0.0.1:28019");
    assert_eq!(config.db_driver, "mysql");
    assert_eq!(config.db_host, "127.0.0.1");
    assert_eq!(config.db_port, 3306);
    assert_eq!(config.db_name, "sourcemod");
    assert_eq!(config.db_user, "root");
    assert_eq!(config.db_pass, "");
    assert_eq!(config.flush_interval_ms, 500);
    assert_eq!(config.max_batch_rows, 500);
    assert_eq!(config.queue_limit, 50_000);
    assert!(config.require_localhost);
    assert_eq!(config.max_frame_bytes, 32_768);
    assert_eq!(config.max_inbound_events, 512);
    assert_eq!(config.dedupe_events, 65_536);
    assert_eq!(config.pending_journal_compact_bytes, 16 * 1024 * 1024);
    assert!(!config.debug);
    assert_eq!(config.auth_token, "");
}

#[test]
fn settings_are_kept_within_bounds() {
    let low = Config::from_env(ConfigVars {
        flush_interval_ms: set("0"),
        max_batch_rows: set("0"),
        queue_limit: set("0"),
        max_frame_bytes: set("1"),
        max_inbound_events: set("0"),
        dedupe_events: set("0"),
        pending_journal_compact_bytes: set("0"),
        ..unset()
    });
    assert_eq!(low.flush_interval_ms, 1);
    assert_eq!(low.max_batch_rows, 1);
    assert_eq!(low.queue_limit, 1);
    assert_eq!(low.max_frame_bytes, 1024);
    assert_eq!(low.max_inbound_events, 1);
    assert_eq!(low.dedupe_events, 0);
    assert_eq!(low.pending_journal_compact_bytes, 0);

    let high = Config::from_env(ConfigVars {
        queue_limit: set("99999999"),
        max_frame_bytes: set("99999999"),
        max_inbound_events: set("99999999"),
        dedupe_events: set("99999999"),
        require_localhost: set("no"),
        debug: set("yes"),
        bind: set(""),
        ..unset()
    });
    assert_eq!(high.queue_limit, 1_000_000);
    assert_eq!(high.max_frame_bytes, 1024 * 1024);
    assert_eq!(high.max_inbound_events, 4096);
    assert_eq!(high.dedupe_events, 1_000_000);
    assert!(!high.require_localhost);
    assert!(high.debug);
    assert_eq!(high.bind, "");
}

#[test]
fn numbers_parse_as_std_parses_them() {
    let texts = [
        "", "+", "-", "0", "-0", "+0", "007", "65535", "65536", "+12", "-12", "1_0", " 1", "1 ", "٣",
        "18446744073709551615", "18446744073709551616", "99999999999999999999999", "1e3", "0x10",
    ];
    for text in texts {
        assert_eq!(env_u16(Some(text), 7), text.parse().unwrap_or(7), "{text}");
        assert_eq!(env_u64(Some(text), 7), text.parse().unwrap_or(7), "{text}");
        assert_eq!(env_usize(Some(text), 7), text.parse().unwrap_or(7), "{text}");
    }
    assert_eq!(env_u16(None, 7), 7);
    assert_eq!(env_u64(None, 7), 7);
    assert_eq!(env_usize(None, 7), 7);
}

#[test]
fn switches_know_five_words() {
    for word in ["1", "true", "TRUE", "yes", "YES"] {
        assert!(env_bool(Some(word), false));
    }
    for word in ["", "0", "True", "on", "yes ", "no"] {
        assert!(!env_bool(Some(word), true));
    }
    assert!(env_bool(None, true));
    assert!(!env_bool(None, false));
}

#[test]
fn blank_paths_switch_files_off() {
    assert_eq!(dead_letter_path(None), set("statistics_dead_letters.log"));
    assert_eq!(pending_journal_path(None), set("statistics_pending_journal.log"));
    assert_eq!(dead_letter_path(set(" ")), None);
    assert_eq!(pending_journal_path(set("")), None);
    assert_eq!(dead_letter_path(set("/a b")), set("/a b"));
    assert_eq!(pending_journal_path(set("/x")), set("/x"));
}

#[test]
fn only_one_driver_is_supported() {
    for driver in ["mysql", "MySQL", "MYSQL"] {
        assert!(is_supported_driver(driver));
    }
    for driver in ["", "mysq", "mysqlx", "sqlite", "mysQ\u{17f}"] {
        assert!(!is_supported_driver(driver));
    }
}

#[test]
fn loopback_addresses() {
    assert!(is_loopback(PeerIp::V4([127, 0, 0, 1])));
    assert!(is_loopback(PeerIp::V4([127, 255, 1, 2])));
    assert!(!is_loopback(PeerIp::V4([128, 0, 0, 1])));
    assert!(!is_loopback(PeerIp::V4([10, 0, 0, 127])));
    assert!(!is_loopback(PeerIp::V4([0, 0, 0, 0])));
    assert!(is_loopback(PeerIp::V6([0, 0, 0, 0, 0, 0, 0, 1])));
    assert!(!is_loopback(PeerIp::V6([0, 0, 0, 0, 0, 0, 0, 0])));
    assert!(!is_loopback(PeerIp::V6([0, 0, 0, 0, 0, 0xffff, 0x7f00, 1])));
    assert!(!is_loopback(PeerIp::V6([1, 0, 0, 0, 0, 0, 0, 1])));
}
