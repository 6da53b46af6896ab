use plugin_statistics::schema::{
    ensure_schema, migration_statements, SchemaRequest, INITIAL_MIGRATION, SCHEMA_VERSION,
};

#[test]
fn migration_requires_tickrate_on_every_event() {
    let migration = INITIAL_MIGRATION;
    assert!(migration.contains("plugin_statistics_map_sessions"));
    assert!(migration.contains("server_tick BIGINT NOT NULL"));
    assert!(migration.contains("expected_tickrate DECIMAL(9,3) NOT NULL"));
    assert!(migration.contains("observed_tickrate DECIMAL(9,3) NOT NULL"));
}

#[test]
fn the_migration_creates_four_tables() {
    assert_eq!(SCHEMA_VERSION, 1);
    let statements = migration_statements(INITIAL_MIGRATION);
    assert_eq!(statements.len(), 4);
    for (statement, table) in statements.iter().zip([
        "plugin_statistics_servers",
        "plugin_statistics_map_sessions",
        "plugin_statistics_events",
        "plugin_statistics_tick_samples",
    ]) {
        assert!(statement.starts_with(&format!("CREATE TABLE IF NOT EXISTS {table} (")));
    }
}

#[test]
fn scripts_are_split_as_std_splits_them() {
    for sql in ["", ";", "a", " a ; b;;\n c ;", "a;b", "\u{3000};x\u{a0}"] {
        let expected: Vec<String> = sql
            .split(';')
            .map(str::trim)
            .filter(|statement| !statement.is_empty())
            .map(str::to_string)
            .collect();
        assert_eq!(migration_statements(sql), expected, "{sql}");
    }
}

#[test]
fn an_applied_version_is_left_alone() {
    assert_eq!(ensure_schema(true, 1, "a;b"), []);
}

#[test]
fn a_version_is_recorded_after_its_last_statement() {
    assert_eq!(
        ensure_schema(false, 7, "a; b;"),
        [
            SchemaRequest::Execute("a".to_string()),
            SchemaRequest::Execute("b".to_string()),
            SchemaRequest::Record(7),
        ]
    );
    assert_eq!(ensure_schema(false, 7, " ; "), [SchemaRequest::Record(7)]);
    let requests = ensure_schema(false, SCHEMA_VERSION, INITIAL_MIGRATION);
    assert_eq!(requests.len(), 5);
    assert_eq!(requests[4], SchemaRequest::Record(1));
}
