//! The tables of the database, and how they come to be.

use crate::text::{string_of, texts, trim, trim_end, trim_start, trimmed_chars};
use vstd::prelude::*;

verus! {

/// The version of the tables that [`INITIAL_MIGRATION`] creates.
pub const SCHEMA_VERSION: u32 = 1;

/// The statements that create the tables. Every event and every tick sample
/// carries its tick and its tick rates.
pub const INITIAL_MIGRATION: &'static str =
    "CREATE TABLE IF NOT EXISTS plugin_statistics_servers (
    id BIGINT UNSIGNED NOT NULL AUTO_INCREMENT PRIMARY KEY,
    server_key VARCHAR(128) NOT NULL,
    hostname VARCHAR(255) NOT NULL DEFAULT '',
    host_port INT NOT NULL DEFAULT 0,
    created_at BIGINT NOT NULL,
    last_seen_at BIGINT NOT NULL,
    UNIQUE KEY uq_plugin_statistics_servers_key (server_key)
) ENGINE=InnoDB DEFAULT CHARSET=utf8mb4 COLLATE=utf8mb4_unicode_ci;

CREATE TABLE IF NOT EXISTS plugin_statistics_map_sessions (
    id BIGINT UNSIGNED NOT NULL AUTO_INCREMENT PRIMARY KEY,
    session_key VARCHAR(128) NOT NULL,
    server_id BIGINT UNSIGNED NOT NULL,
    host_port INT NOT NULL DEFAULT 0,
    map_name VARCHAR(128) NOT NULL DEFAULT '',
    gamemode VARCHAR(64) NOT NULL DEFAULT '',
    started_at BIGINT NOT NULL,
    ended_at BIGINT NULL,
    duration_seconds BIGINT NULL,
    end_reason VARCHAR(32) NOT NULL DEFAULT '',
    end_inferred TINYINT(1) NOT NULL DEFAULT 0,
    start_tick BIGINT NOT NULL DEFAULT 0,
    end_tick BIGINT NULL,
    tick_interval_seconds DECIMAL(12,9) NOT NULL DEFAULT 0,
    expected_tickrate DECIMAL(9,3) NOT NULL DEFAULT 0,
    average_observed_tickrate DECIMAL(9,3) NULL,
    minimum_observed_tickrate DECIMAL(9,3) NULL,
    tick_sample_count INT UNSIGNED NOT NULL DEFAULT 0,
    created_at BIGINT NOT NULL,
    updated_at BIGINT NOT NULL,
    UNIQUE KEY uq_plugin_statistics_map_sessions_key (server_id, session_key),
    KEY ix_plugin_statistics_map_sessions_open (server_id, ended_at),
    CONSTRAINT fk_plugin_statistics_map_sessions_server
        FOREIGN KEY (server_id) REFERENCES plugin_statistics_servers (id)
) ENGINE=InnoDB DEFAULT CHARSET=utf8mb4 COLLATE=utf8mb4_unicode_ci;

CREATE TABLE IF NOT EXISTS plugin_statistics_events (
    event_id VARCHAR(128) NOT NULL PRIMARY KEY,
    session_id BIGINT UNSIGNED NOT NULL,
    source_plugin VARCHAR(64) NOT NULL,
    event_name VARCHAR(64) NOT NULL,
    message VARCHAR(512) NOT NULL DEFAULT '',
    occurred_at BIGINT NOT NULL,
    server_tick BIGINT NOT NULL,
    tick_interval_seconds DECIMAL(12,9) NOT NULL,
    expected_tickrate DECIMAL(9,3) NOT NULL,
    observed_tickrate DECIMAL(9,3) NOT NULL,
    created_at BIGINT NOT NULL,
    KEY ix_plugin_statistics_events_session (session_id, occurred_at),
    KEY ix_plugin_statistics_events_name (source_plugin, event_name, occurred_at),
    CONSTRAINT fk_plugin_statistics_events_session
        FOREIGN KEY (session_id) REFERENCES plugin_statistics_map_sessions (id)
) ENGINE=InnoDB DEFAULT CHARSET=utf8mb4 COLLATE=utf8mb4_unicode_ci;

CREATE TABLE IF NOT EXISTS plugin_statistics_tick_samples (
    event_id VARCHAR(128) NOT NULL PRIMARY KEY,
    session_id BIGINT UNSIGNED NOT NULL,
    sampled_at BIGINT NOT NULL,
    server_tick BIGINT NOT NULL,
    tick_interval_seconds DECIMAL(12,9) NOT NULL,
    expected_tickrate DECIMAL(9,3) NOT NULL,
    observed_tickrate DECIMAL(9,3) NOT NULL,
    created_at BIGINT NOT NULL,
    KEY ix_plugin_statistics_tick_samples_session (session_id, sampled_at),
    CONSTRAINT fk_plugin_statistics_tick_samples_session
        FOREIGN KEY (session_id) REFERENCES plugin_statistics_map_sessions (id)
) ENGINE=InnoDB DEFAULT CHARSET=utf8mb4 COLLATE=utf8mb4_unicode_ci;
";

/// The pieces of `text` between the separators `sep`.
pub open spec fn pieces(text: Seq<char>, sep: char) -> Seq<Seq<char>>
    decreases text.len(),
{
    if text.len() == 0 {
        seq![Seq::empty()]
    } else {
        let earlier = pieces(text.drop_last(), sep);
        if text.last() == sep {
            earlier.push(Seq::empty())
        } else {
            earlier.drop_last().push(earlier.last().push(text.last()))
        }
    }
}

/// `list` with the white space round each text taken off, without the texts of
/// which nothing is left.
pub open spec fn trimmed_texts(list: Seq<Seq<char>>) -> Seq<Seq<char>>
    decreases list.len(),
{
    if list.len() == 0 {
        Seq::empty()
    } else {
        let earlier = trimmed_texts(list.drop_last());
        let text = trim(list.last());
        if text.len() == 0 {
            earlier
        } else {
            earlier.push(text)
        }
    }
}

/// The statements of a script.
pub open spec fn statements_of(sql: Seq<char>) -> Seq<Seq<char>> {
    trimmed_texts(pieces(sql, ';'))
}

/// Adds the trimmed `piece` to `statements`, where anything is left of it.
fn push_statement(statements: &mut Vec<String>, piece: &Vec<char>)
    ensures
        texts(final(statements)@) == if trim(piece@).len() == 0 {
            texts(old(statements)@)
        } else {
            texts(old(statements)@).push(trim(piece@))
        },
{
    let text = string_of(&trimmed_chars(&string_of(piece)));
    if text.unicode_len() > 0 {
        statements.push(text);
        assert(texts(statements@) =~= texts(old(statements)@).push(trim(piece@)));
    }
}

/// The statements of the script `sql`.
pub fn migration_statements(sql: &str) -> (statements: Vec<String>)
    ensures
        texts(statements@) == statements_of(sql@),
{
    let mut statements: Vec<String> = Vec::new();
    let mut piece: Vec<char> = Vec::new();
    let ghost mut done: Seq<Seq<char>> = Seq::empty();
    assert(texts(statements@) =~= trimmed_texts(done));
    assert(done.push(piece@) =~= pieces(sql@.take(0), ';'));
    for c in it: sql.chars()
        invariant
            it.seq() == sql@,
            texts(statements@) == trimmed_texts(done),
            done.push(piece@) == pieces(sql@.take(it.index() as int), ';'),
    {
        let ghost i = it.index() as int;
        proof {
            assert(sql@.take(i + 1).drop_last() =~= sql@.take(i));
            assert(sql@.take(i + 1).last() == c);
            assert(done.push(piece@).drop_last() =~= done);
        }
        if c == ';' {
            push_statement(&mut statements, &piece);
            proof {
                done = done.push(piece@);
            }
            piece = Vec::new();
            assert(piece@ =~= Seq::empty());
        } else {
            piece.push(c);
        }
    }
    assert(sql@.take(sql@.len() as int) =~= sql@);
    assert(done.push(piece@).drop_last() =~= done);
    push_statement(&mut statements, &piece);
    statements
}

/// What the database is asked for the sake of its tables.
#[derive(Debug, PartialEq, Eq)]
pub enum SchemaRequest {
    /// Execute a statement.
    Execute(String),
    /// Record a version as applied.
    Record(u32),
}

/// What such a request says.
pub enum SchemaRequestModel {
    Execute(Seq<char>),
    Record(u32),
}

impl View for SchemaRequest {
    type V = SchemaRequestModel;

    open spec fn view(&self) -> SchemaRequestModel {
        match self {
            SchemaRequest::Execute(sql) => SchemaRequestModel::Execute(sql@),
            SchemaRequest::Record(version) => SchemaRequestModel::Record(*version),
        }
    }
}

/// What a sequence of requests says.
pub open spec fn schema_request_models(requests: Seq<SchemaRequest>) -> Seq<SchemaRequestModel> {
    requests.map_values(|r: SchemaRequest| r@)
}

/// The requests that execute `statements`.
pub open spec fn executions(statements: Seq<Seq<char>>) -> Seq<SchemaRequestModel> {
    statements.map_values(|sql: Seq<char>| SchemaRequestModel::Execute(sql))
}

/// The requests that bring the tables to `version`: none where it has been
/// applied; otherwise each statement of the script, and after the last one the
/// record of the version.
pub open spec fn schema_requests(applied: bool, version: u32, sql: Seq<char>) -> Seq<
    SchemaRequestModel,
> {
    if applied {
        Seq::empty()
    } else {
        executions(statements_of(sql)).push(SchemaRequestModel::Record(version))
    }
}

/// The requests that bring the tables to `version` with the script `sql`, in the
/// order in which they are made.
pub fn ensure_schema(applied: bool, version: u32, sql: &str) -> (requests: Vec<SchemaRequest>)
    ensures
        schema_request_models(requests@) == schema_requests(applied, version, sql@),
{
    let mut requests: Vec<SchemaRequest> = Vec::new();
    if applied {
        assert(schema_request_models(requests@) =~= Seq::empty());
        return requests;
    }
    let statements = migration_statements(sql);
    let ghost all = executions(texts(statements@));
    assert(schema_request_models(requests@) =~= all.take(0));
    for i in 0..statements.len()
        invariant
            all == executions(texts(statements@)),
            schema_request_models(requests@) == all.take(i as int),
    {
        let ghost before = requests@;
        requests.push(SchemaRequest::Execute(statements[i].clone()));
        proof {
            assert(schema_request_models(requests@) =~= schema_request_models(before).push(
                all[i as int],
            ));
            assert(all.take(i + 1) =~= all.take(i as int).push(all[i as int]));
        }
    }
    let ghost before = requests@;
    requests.push(SchemaRequest::Record(version));
    assert(all.take(all.len() as int) =~= all);
    assert(schema_request_models(requests@) =~= schema_request_models(before).push(
        SchemaRequestModel::Record(version),
    ));
    requests
}

/// What has been done to the tables: the statements that were executed, in their
/// order, and the versions that are recorded as applied.
#[verifier::ext_equal]
pub struct TablesModel {
    pub executed: Seq<Seq<char>>,
    pub applied: Set<u32>,
}

/// The tables after a request.
pub open spec fn performed(tables: TablesModel, request: SchemaRequestModel) -> TablesModel {
    match request {
        SchemaRequestModel::Execute(sql) => TablesModel {
            executed: tables.executed.push(sql),
            ..tables
        },
        SchemaRequestModel::Record(version) => TablesModel {
            applied: tables.applied.insert(version),
            ..tables
        },
    }
}

/// The tables after all of `requests`, the first one first.
pub open spec fn performed_all(
    tables: TablesModel,
    requests: Seq<SchemaRequestModel>,
) -> TablesModel
    decreases requests.len(),
{
    if requests.len() == 0 {
        tables
    } else {
        performed(performed_all(tables, requests.drop_last()), requests.last())
    }
}

proof fn lemma_executions(tables: TablesModel, statements: Seq<Seq<char>>)
    ensures
        performed_all(tables, executions(statements)) == (TablesModel {
            executed: tables.executed + statements,
            ..tables
        }),
    decreases statements.len(),
{
    if statements.len() == 0 {
        assert(tables.executed + statements =~= tables.executed);
    } else {
        lemma_executions(tables, statements.drop_last());
        assert(executions(statements).drop_last() =~= executions(statements.drop_last()));
        let before = tables.executed + statements.drop_last();
        assert(before.push(statements.last()) =~= tables.executed + statements);
    }
}

/// As long as the requests for a version are not all done, the version is not
/// recorded, and what was executed is the beginning of its script. A start that
/// fails is thus tried again.
pub proof fn law_version_is_recorded_last(
    tables: TablesModel,
    version: u32,
    sql: Seq<char>,
    n: int,
)
    requires
        0 <= n < schema_requests(tables.applied.contains(version), version, sql).len(),
    ensures
        performed_all(
            tables,
            schema_requests(tables.applied.contains(version), version, sql).take(n),
        ) == (TablesModel {
            executed: tables.executed + statements_of(sql).take(n),
            ..tables
        }),
{
    let statements = statements_of(sql);
    assert(schema_requests(false, version, sql).take(n) =~= executions(statements.take(n)));
    lemma_executions(tables, statements.take(n));
}

/// A start executes the statements of a version that is not recorded, each once
/// and in their order, and records it; it does nothing where the version is
/// recorded. A second start does nothing.
pub proof fn law_schema_is_applied_once(tables: TablesModel, version: u32, sql: Seq<char>)
    ensures
        ({
            let requests = schema_requests(tables.applied.contains(version), version, sql);
            let after = performed_all(tables, requests);
            let again = schema_requests(after.applied.contains(version), version, sql);
            &&& after == if tables.applied.contains(version) {
                tables
            } else {
                TablesModel {
                    executed: tables.executed + statements_of(sql),
                    applied: tables.applied.insert(version),
                }
            }
            &&& again.len() == 0
            &&& performed_all(after, again) == after
        }),
{
    let requests = schema_requests(false, version, sql);
    assert(requests.drop_last() =~= executions(statements_of(sql)));
    lemma_executions(tables, statements_of(sql));
}

/// The texts of `list` with `sep` between them.
pub open spec fn joined(list: Seq<Seq<char>>, sep: char) -> Seq<char>
    decreases list.len(),
{
    if list.len() == 0 {
        Seq::empty()
    } else if list.len() == 1 {
        list[0]
    } else {
        joined(list.drop_last(), sep).push(sep) + list.last()
    }
}

/// The pieces of a text hold no separator, and with the separators between them
/// they are the text.
pub proof fn law_pieces_make_the_text(text: Seq<char>, sep: char)
    ensures
        pieces(text, sep).len() > 0,
        joined(pieces(text, sep), sep) == text,
        forall|i: int|
            0 <= i < pieces(text, sep).len() ==> !(#[trigger] pieces(text, sep)[i]).contains(sep),
    decreases text.len(),
{
    if text.len() > 0 {
        let earlier = pieces(text.drop_last(), sep);
        let now = pieces(text, sep);
        law_pieces_make_the_text(text.drop_last(), sep);
        assert(text =~= text.drop_last().push(text.last()));
        if text.last() == sep {
            assert(now.drop_last() =~= earlier);
            assert(joined(now, sep) =~= joined(earlier, sep).push(sep));
        } else {
            assert(now.drop_last() =~= earlier.drop_last());
            assert(joined(now, sep) =~= joined(earlier, sep).push(text.last()));
            assert forall|i: int| 0 <= i < now.len() implies !(#[trigger] now[i]).contains(sep) by {
                if i < earlier.len() - 1 {
                    assert(now[i] == earlier[i]);
                } else {
                    let last = earlier[earlier.len() - 1];
                    assert(!last.contains(sep));
                    assert(now[i] == last.push(text.last()));
                    if now[i].contains(sep) {
                        let k = choose|k: int| 0 <= k < now[i].len() && now[i][k] == sep;
                        assert(last[k] == sep);
                    }
                }
            }
        }
    }
}

proof fn lemma_trim_is_part(s: Seq<char>, c: char)
    requires
        !s.contains(c),
    ensures
        !trim(s).contains(c),
{
    lemma_trim_start_is_part(s, c);
    lemma_trim_end_is_part(trim_start(s), c);
}

proof fn lemma_trim_start_is_part(s: Seq<char>, c: char)
    requires
        !s.contains(c),
    ensures
        !trim_start(s).contains(c),
    decreases s.len(),
{
    if s.len() > 0 {
        let rest = s.skip(1);
        if rest.contains(c) {
            let k = choose|k: int| 0 <= k < rest.len() && rest[k] == c;
            assert(s[k + 1] == c);
        }
        lemma_trim_start_is_part(rest, c);
    }
}

proof fn lemma_trim_end_is_part(s: Seq<char>, c: char)
    requires
        !s.contains(c),
    ensures
        !trim_end(s).contains(c),
    decreases s.len(),
{
    if s.len() > 0 {
        let rest = s.drop_last();
        if rest.contains(c) {
            let k = choose|k: int| 0 <= k < rest.len() && rest[k] == c;
            assert(s[k] == c);
        }
        lemma_trim_end_is_part(rest, c);
    }
}

proof fn lemma_trimmed_texts(list: Seq<Seq<char>>, c: char)
    requires
        forall|i: int| 0 <= i < list.len() ==> !(#[trigger] list[i]).contains(c),
    ensures
        forall|i: int|
            0 <= i < trimmed_texts(list).len() ==> (#[trigger] trimmed_texts(list)[i]).len() > 0
                && !trimmed_texts(list)[i].contains(c),
    decreases list.len(),
{
    if list.len() > 0 {
        let rest = list.drop_last();
        assert forall|i: int| 0 <= i < rest.len() implies !(#[trigger] rest[i]).contains(c) by {
            assert(rest[i] == list[i]);
        }
        lemma_trimmed_texts(rest, c);
        assert(!list[list.len() - 1].contains(c));
        lemma_trim_is_part(list.last(), c);
        let earlier = trimmed_texts(rest);
        let now = trimmed_texts(list);
        assert forall|i: int| 0 <= i < now.len() implies (#[trigger] now[i]).len() > 0
            && !now[i].contains(c) by {
            if i < earlier.len() {
                assert(now[i] == earlier[i]);
            }
        }
    }
}

/// No statement of a script is empty, and none holds the separator.
pub proof fn law_statements_are_single(sql: Seq<char>)
    ensures
        forall|i: int|
            0 <= i < statements_of(sql).len() ==> (#[trigger] statements_of(sql)[i]).len() > 0
                && !statements_of(sql)[i].contains(';'),
{
    law_pieces_make_the_text(sql, ';');
    lemma_trimmed_texts(pieces(sql, ';'), ';');
}

proof fn lemma_statements(list: Seq<Seq<char>>)
    ensures
        trimmed_texts(list) == list.map_values(|t: Seq<char>| trim(t)).filter(
            |t: Seq<char>| t.len() > 0,
        ),
    decreases list.len(),
{
    reveal(Seq::filter);
    if list.len() > 0 {
        lemma_statements(list.drop_last());
        assert(list.map_values(|t: Seq<char>| trim(t)).drop_last()
            =~= list.drop_last().map_values(|t: Seq<char>| trim(t)));
    }
}

/// The statements of a script are its pieces between the semicolons, in their order
/// and as they stand there, but for the white space round them and for the pieces
/// that hold nothing else.
pub proof fn law_statements_are_the_pieces(sql: Seq<char>)
    ensures
        statements_of(sql) == pieces(sql, ';').map_values(|t: Seq<char>| trim(t)).filter(
            |t: Seq<char>| t.len() > 0,
        ),
{
    lemma_statements(pieces(sql, ';'));
}

/// A version that is recorded asks for nothing. One that is not has each statement
/// of its script executed as it is, in their order, and is then recorded itself.
pub proof fn law_requests_follow_the_script(version: u32, sql: Seq<char>, k: int)
    ensures
        schema_requests(true, version, sql).len() == 0,
        schema_requests(false, version, sql).len() == statements_of(sql).len() + 1,
        0 <= k < statements_of(sql).len() ==> schema_requests(false, version, sql)[k]
            == SchemaRequestModel::Execute(statements_of(sql)[k]),
        schema_requests(false, version, sql).last() == SchemaRequestModel::Record(version),
{
}

/// The view of a request holds what the request holds, one for one.
pub proof fn law_schema_request_views(
    request: SchemaRequest,
    requests: Seq<SchemaRequest>,
    k: int,
)
    ensures
        request matches SchemaRequest::Execute(sql) ==> request@ == SchemaRequestModel::Execute(
            sql@,
        ),
        request matches SchemaRequest::Record(version) ==> request@
            == SchemaRequestModel::Record(version),
        schema_request_models(requests).len() == requests.len(),
        0 <= k < requests.len() ==> schema_request_models(requests)[k] == requests[k]@,
{
}

} // verus!
