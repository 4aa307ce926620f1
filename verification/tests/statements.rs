use ducklink_host::alias::{
    apply_prefix_declaration, begin_prefix_declaration, build_prefix_alias_macro, plan_aliases,
    run_prefix_ddl, run_prefix_query, AliasAction,
};
use ducklink_host::attach::{
    at5_synth_fn_name, begin_attach, cli_extension_duckerror, empty_query_result, intercept_attach,
    resolve_attach_dsn_path, AttachAction, AttachEvent, AttachSpec, AttachedForeignCatalog, Reply,
};
use ducklink_host::cli_types::{Duckerror, Duckvalue, QueryResult};
use ducklink_host::manager::ExtensionManager;
use ducklink_host::model::Float64value;
use ducklink_host::names::NameMap;
use ducklink_host::resources::{
    connection_opened, next_rows, DropAction, ResourceKind, Resources, StreamReply,
};
use ducklink_host::scan::ScanRegistry;
use ducklink_host::settings::ResolvePolicy;
use ducklink_host::sibling::{ExecReply, SiblingState};
use ducklink_host::sqltype::ValueLiteral;
use ducklink_host::startup::{
    create_ducklink_schema, maybe_autoload, schema_statements, schema_step, SchemaAction,
    SchemaState, CREATE_PREFIX_MACRO, PROBE_PREFIX,
};
use ducklink_host::statement::{
    execute, execute_single_statement, query_outcome, script_statements, script_step,
    statement_step, ScriptAction, StatementAction, StatementEvent, StatementRun,
};
use ducklink_host::write::{
    at5_duckvalue_to_i64, at5_locate_rowid_column, at5_prescan_rows, begin_write, intercept_write,
    ColumnSpec, ScanReply, WriteAction, WriteEvent, WriteRoute,
};
use ducklink_host::{core_types, extension_types};

fn s(x: &str) -> String {
    x.to_string()
}

fn manager() -> ExtensionManager {
    ExtensionManager::new(ResolvePolicy::from_settings(None, None))
}

fn rows_reply(cells: Vec<Vec<core_types::Duckvalue>>) -> ExecReply {
    ExecReply::Rows(core_types::QueryResult { columns: vec![], rows: cells })
}

fn core_text(x: &str) -> core_types::Duckvalue {
    core_types::Duckvalue::Text(s(x))
}

fn cli_message(e: &Duckerror) -> &str {
    match e {
        Duckerror::Invalidargument(m)
        | Duckerror::Unsupported(m)
        | Duckerror::Invalidstate(m)
        | Duckerror::Io(m)
        | Duckerror::Internal(m) => m,
    }
}

fn two_column_result() -> QueryResult {
    let mut q = empty_query_result();
    q.rows.push(vec![Duckvalue::Int64(1)]);
    q
}

// --- one statement ---------------------------------------------------------

#[test]
fn a_plain_statement_goes_to_the_core() {
    let mut m = manager();
    let (run, action) = execute_single_statement(&mut m, "SELECT 1");
    assert!(matches!(action, StatementAction::ParseAttach { ref sql } if sql == "SELECT 1"));
    let (run, action) =
        statement_step(&mut m, run, StatementEvent::AttachParsed(None), false);
    assert!(matches!(action, StatementAction::Rewrite { .. }));
    let (run, action) =
        statement_step(&mut m, run, StatementEvent::Rewritten(s("SELECT 2")), false);
    assert!(matches!(action, StatementAction::Execute { ref sql } if sql == "SELECT 2"));
    let reply = rows_reply(vec![vec![core_types::Duckvalue::Int64(2)]]);
    let (run, action) = statement_step(&mut m, run, StatementEvent::Executed(reply), false);
    assert!(matches!(run, StatementRun::Finished));
    match action {
        StatementAction::Finish(Ok(q)) => assert!(matches!(q.rows[0][0], Duckvalue::Int64(2))),
        other => panic!("{other:?}"),
    }
}

#[test]
fn what_waits_goes_first() {
    let mut m = manager();
    m.deferred_drain_names = vec![s("a"), s("b; DROP TABLE t"), s("c-1")];
    m.deferred_prefix_declarations = vec![(s("x"), s("main")), (s("y-"), s("main"))];
    let (run, action) = execute_single_statement(&mut m, "SELECT 1");
    assert!(m.deferred_drain_names.is_empty());
    assert!(matches!(action, StatementAction::RunLoad { ref sql } if sql == "LOAD a;"));
    let (run, action) = statement_step(&mut m, run, StatementEvent::LoadRan, false);
    assert!(matches!(action, StatementAction::RunLoad { ref sql } if sql == "LOAD c-1;"));
    assert_eq!(m.deferred_prefix_declarations.len(), 2);
    let (run, action) = statement_step(&mut m, run, StatementEvent::LoadRan, false);
    assert!(m.deferred_prefix_declarations.is_empty());
    assert!(matches!(action, StatementAction::Declare { ref alias, .. } if alias == "x"));
    let (run, action) = statement_step(&mut m, run, StatementEvent::LoadRan, false);
    assert!(matches!(action, StatementAction::Ignore));
    let (_, action) = statement_step(&mut m, run, StatementEvent::Declared, false);
    assert!(matches!(action, StatementAction::ParseAttach { .. }));
}

#[test]
fn snapshot_is_refreshed_after_a_statement() {
    let mut m = manager();
    m.catalog_snapshot.enabled = true;
    let (run, action) = statement_step(
        &mut m,
        StatementRun::Executing,
        StatementEvent::Executed(ExecReply::Failed(core_types::Duckerror::Io(s("e")))),
        false,
    );
    assert!(matches!(
        action,
        StatementAction::Refresh { query } if query == "SELECT table_name FROM duckdb_tables()"
    ));
    let reply = rows_reply(vec![vec![core_text("t1")]]);
    let (run, action) = statement_step(&mut m, run, StatementEvent::Refreshed(reply), false);
    assert!(matches!(
        action,
        StatementAction::Refresh { query } if query == "SELECT DISTINCT column_name FROM duckdb_columns()"
    ));
    let (_, action) = statement_step(
        &mut m,
        run,
        StatementEvent::Refreshed(ExecReply::Trapped(s("x"))),
        false,
    );
    match action {
        StatementAction::Finish(Err(e)) => assert_eq!(cli_message(&e), "e"),
        other => panic!("{other:?}"),
    }
    assert_eq!(
        m.catalog_snapshot.answer_busy("SELECT table_name FROM duckdb_tables()"),
        Ok(vec![vec![s("t1")]])
    );
}

#[test]
fn a_trap_ends_a_statement_at_once() {
    let mut m = manager();
    m.catalog_snapshot.enabled = true;
    let (_, action) = statement_step(
        &mut m,
        StatementRun::Executing,
        StatementEvent::Executed(ExecReply::Trapped(s("unreachable"))),
        false,
    );
    match action {
        StatementAction::Finish(Err(Duckerror::Internal(m))) => assert_eq!(m, "unreachable"),
        other => panic!("{other:?}"),
    }
}

#[test]
fn attach_and_writes_stay_away_from_the_core() {
    let mut m = manager();
    let spec = AttachSpec {
        alias: s("a"),
        ty_name: s("t"),
        dsn: s("d"),
        if_not_exists: false,
        read_only: false,
    };
    let (run, _) = execute_single_statement(&mut m, "ATTACH ..");
    let (run, action) =
        statement_step(&mut m, run, StatementEvent::AttachParsed(Some(spec)), true);
    assert!(matches!(action, StatementAction::Attach(_)));
    let (_, action) = statement_step(
        &mut m,
        run,
        StatementEvent::Attached(Err(Duckerror::Io(s("gone")))),
        true,
    );
    assert!(matches!(action, StatementAction::Finish(Err(Duckerror::Io(_)))));

    let (run, _) = execute_single_statement(&mut m, "INSERT ..");
    let (run, action) = statement_step(&mut m, run, StatementEvent::AttachParsed(None), true);
    assert!(matches!(action, StatementAction::ParseWrite { .. }));
    let route = WriteRoute::Unsupported(s("MERGE"));
    let (run, action) =
        statement_step(&mut m, run, StatementEvent::WriteParsed(Some(route)), true);
    assert!(matches!(action, StatementAction::Write(_)));
    let (_, action) =
        statement_step(&mut m, run, StatementEvent::Written(Ok(two_column_result())), true);
    match action {
        StatementAction::Finish(Ok(q)) => assert_eq!(q.rows.len(), 1),
        other => panic!("{other:?}"),
    }
    let run = StatementRun::WriteParse { sql: s("SELECT 1") };
    let (_, action) = statement_step(&mut m, run, StatementEvent::WriteParsed(None), true);
    assert!(matches!(action, StatementAction::Rewrite { ref sql } if sql == "SELECT 1"));
}

#[test]
fn outcomes_of_the_core() {
    assert!(query_outcome(rows_reply(vec![])).is_ok());
    let e = query_outcome(ExecReply::Failed(core_types::Duckerror::Unsupported(s("u")))).unwrap_err();
    assert!(matches!(e, Duckerror::Unsupported(_)));
}

#[test]
fn a_script_returns_its_last_result() {
    assert_eq!(script_statements(" SELECT 1 ", None), vec![" SELECT 1 "]);
    let pieces = vec![s(" a "), s("  "), s("b")];
    let list = script_statements("a; ;b", Some(pieces));
    assert_eq!(list, vec!["a", "b"]);
    let (run, action) = execute(list);
    assert!(matches!(action, ScriptAction::Run { ref sql } if sql == "a"));
    let (run, action) = script_step(run, Ok(empty_query_result()));
    assert!(matches!(action, ScriptAction::Run { ref sql } if sql == "b"));
    match script_step(run, Ok(two_column_result())).1 {
        ScriptAction::Finish(Ok(q)) => assert_eq!(q.rows.len(), 1),
        other => panic!("{other:?}"),
    }
}

#[test]
fn a_script_stops_at_the_first_error() {
    let (run, _) = execute(vec![s("a"), s("b")]);
    match script_step(run, Err(Duckerror::Io(s("x")))).1 {
        ScriptAction::Finish(Err(e)) => assert_eq!(cli_message(&e), "x"),
        other => panic!("{other:?}"),
    }
    match execute(vec![]).1 {
        ScriptAction::Finish(Ok(q)) => assert!(q.rows.is_empty() && q.columns.is_empty()),
        other => panic!("{other:?}"),
    }
}

// --- start-up --------------------------------------------------------------

#[test]
fn autoload_happens_once() {
    let mut done = false;
    assert_eq!(
        maybe_autoload(&mut done, None, true),
        Some(vec![s("LOAD jsonfns;"), s("LOAD ducklink_scalars;")])
    );
    assert!(done);
    assert_eq!(maybe_autoload(&mut done, None, true), None);
    let mut done = false;
    assert_eq!(
        maybe_autoload(&mut done, Some(" a,, b-2\tc;d "), true),
        Some(vec![s("LOAD a;"), s("LOAD b-2;")])
    );
    let mut done = false;
    assert_eq!(maybe_autoload(&mut done, Some(""), true), Some(vec![]));
    let mut done = false;
    assert_eq!(maybe_autoload(&mut done, None, false), None);
    assert!(done);
}

#[test]
fn schema_is_set_up_statement_by_statement() {
    let all = schema_statements();
    assert_eq!(all.len(), 11);
    let failed = || ExecReply::Trapped(s("no"));
    let (mut state, action) = create_ducklink_schema();
    assert!(matches!(action, SchemaAction::Run(sql) if sql == all[0]));
    for sql in &all[1..] {
        let (next, action) = schema_step(state, &failed());
        assert!(matches!(action, SchemaAction::Run(ref got) if got == sql));
        state = next;
    }
    let (probing, action) = schema_step(state, &failed());
    assert!(matches!(action, SchemaAction::Run(sql) if sql == PROBE_PREFIX));
    // Without the function there is no macro.
    assert!(matches!(schema_step(probing, &rows_reply(vec![])), (SchemaState::Finished, SchemaAction::Finish)));
    assert!(matches!(schema_step(probing, &failed()).1, SchemaAction::Finish));
    let found = rows_reply(vec![vec![core_types::Duckvalue::Int32(1)]]);
    let (state, action) = schema_step(probing, &found);
    assert!(matches!(action, SchemaAction::Run(sql) if sql == CREATE_PREFIX_MACRO));
    assert!(matches!(schema_step(state, &found), (SchemaState::Finished, SchemaAction::Finish)));
}

// --- resources -------------------------------------------------------------

#[test]
fn unknown_resources_are_named() {
    let r = Resources::new();
    assert_eq!(cli_message(&r.connection(1).unwrap_err()), "unknown connection");
    assert_eq!(cli_message(&r.stream(1).unwrap_err()), "unknown stream");
    assert_eq!(cli_message(&r.prepared_statement(1).unwrap_err()), "unknown prepared statement");
    assert_eq!(cli_message(&r.appender(1).unwrap_err()), "unknown appender");
}

#[test]
fn identifiers_start_over_at_one() {
    let mut r = Resources::new();
    assert_eq!(r.alloc_resource_id(), 1);
    assert_eq!(r.alloc_resource_id(), 2);
    r.next_id = u32::MAX;
    assert_eq!(r.alloc_resource_id(), u32::MAX);
    assert_eq!(r.alloc_resource_id(), 1);
}

#[test]
fn a_closed_stream_is_closed_once() {
    let mut r = Resources::new();
    let id = r.keep(ResourceKind::Stream, 70);
    assert_eq!(r.stream(id).unwrap(), 70);
    assert_eq!(r.streams.open_handle(id), Some(70));
    r.streams.mark_closed(id);
    assert_eq!(r.streams.open_handle(id), None);
    assert_eq!(r.stream(id).unwrap(), 70);
    assert_eq!(r.streams.open_handle(99), None);
}

#[test]
fn what_was_let_go_is_dropped_in_order() {
    let mut r = Resources::new();
    let c = r.keep(ResourceKind::Connection, 10);
    let s1 = r.keep(ResourceKind::Stream, 20);
    let s2 = r.keep(ResourceKind::Stream, 21);
    let p = r.keep(ResourceKind::Prepared, 30);
    let a = r.keep(ResourceKind::Appender, 40);
    r.streams.mark_closed(s1);
    r.appenders.schedule_drop(a);
    r.prepared.schedule_drop(p);
    r.streams.schedule_drop(s1);
    r.streams.schedule_drop(s2);
    r.streams.schedule_drop(s2);
    r.connections.schedule_drop(777);
    r.connections.schedule_drop(c);
    let mut seen = Vec::new();
    let (mut run, mut action) = r.begin_drops();
    loop {
        match action {
            DropAction::Drop { kind, handle } => {
                seen.push((kind, handle));
                let next = r.drain_pending_resource_drops(run, Ok(()));
                run = next.0;
                action = next.1;
            }
            DropAction::Finish(done) => {
                assert!(done.is_ok());
                break;
            }
        }
    }
    assert_eq!(
        seen,
        vec![
            (ResourceKind::Connection, 10),
            (ResourceKind::Stream, 21),
            (ResourceKind::Prepared, 30),
            (ResourceKind::Appender, 40),
        ]
    );
    assert!(r.connection(c).is_err() && r.stream(s1).is_err() && r.appender(a).is_err());
}

#[test]
fn a_failed_drop_ends_the_drops() {
    let mut r = Resources::new();
    let c = r.keep(ResourceKind::Connection, 10);
    r.connections.schedule_drop(c);
    let a = r.keep(ResourceKind::Appender, 40);
    r.appenders.schedule_drop(a);
    let (run, _) = r.begin_drops();
    match r.drain_pending_resource_drops(run, Err(s("trap"))).1 {
        DropAction::Finish(Err(Duckerror::Internal(m))) => assert_eq!(m, "trap"),
        other => panic!("{other:?}"),
    }
    // The appender still waits.
    let (_, action) = r.begin_drops();
    assert!(matches!(action, DropAction::Drop { kind: ResourceKind::Appender, handle: 40 }));
}

#[test]
fn an_open_connection_is_noted_for_the_second_core() {
    let mut r = Resources::new();
    let mut sibling = Some(SiblingState::new());
    let id = connection_opened(&mut r, &mut sibling, 5, Some(":memory:"));
    assert_eq!(r.connection(id).unwrap(), 5);
    assert_eq!(sibling.as_ref().unwrap().primary_db_path, Some(None));
    connection_opened(&mut r, &mut sibling, 6, Some("x.db"));
    assert_eq!(sibling.as_ref().unwrap().primary_db_path, Some(Some(s("x.db"))));
    let mut none = None;
    assert_eq!(connection_opened(&mut r, &mut none, 7, None), 3);
    assert!(none.is_none());
}

#[test]
fn stream_rows_are_converted() {
    let rows = vec![vec![core_text("x")], vec![core_types::Duckvalue::Null]];
    let out = next_rows(StreamReply::Rows(Some(rows))).unwrap().unwrap();
    assert!(matches!(out[0][0], Duckvalue::Text(ref t) if t == "x"));
    assert!(matches!(out[1][0], Duckvalue::Null));
    assert!(next_rows(StreamReply::Rows(None)).unwrap().is_none());
    assert!(next_rows(StreamReply::Trapped(s("t"))).is_err());
    let failed = next_rows(StreamReply::Failed(core_types::Duckerror::Io(s("e")))).unwrap_err();
    assert!(matches!(failed, Duckerror::Io(_)));
}

// --- ATTACH ----------------------------------------------------------------

fn spec(alias: &str, dsn: &str) -> AttachSpec {
    AttachSpec { alias: s(alias), ty_name: s("sqlitewasm"), dsn: s(dsn), if_not_exists: false, read_only: false }
}

/// Two storage backends.
fn storages() -> ExtensionManager {
    let mut m = manager();
    m.storage_backends.insert(s("sqlitewasm"), (s("sq"), 8));
    m.storage_backends.insert(s("mysql"), (s("my"), 5));
    m
}

/// Attaches a catalog with one table `t` of an identifier and a name.
fn attach(
    attached: &mut NameMap<AttachedForeignCatalog>,
    scans: &mut ScanRegistry,
    alias: &str,
    dsn: &str,
    persists: bool,
) {
    let (run, action) = begin_attach(&storages(), spec(alias, dsn), attached)
        .unwrap_or_else(|e| panic!("{e:?}"));
    match action {
        AttachAction::OpenCatalog { extension, handle, dsn: opened } => {
            assert_eq!((extension.as_str(), handle, opened.as_str()), ("sq", 8, dsn));
        }
        other => panic!("{other:?}"),
    }
    let (run, action) = intercept_attach(run, AttachEvent::Opened(Ok(3)), attached, scans);
    assert!(matches!(
        action,
        AttachAction::ListTables { ref extension, handle: 8, catalog: 3 } if extension == "sq"
    ));
    let (run, action) = intercept_attach(run, AttachEvent::Listed(Ok(vec![s("t")])), attached, scans);
    assert!(matches!(
        action,
        AttachAction::DescribeTable { ref extension, handle: 8, catalog: 3, ref table }
            if extension == "sq" && table == "t"
    ));
    let columns = vec![
        extension_types::Columndef { name: s("rowid"), logical: extension_types::Logicaltype::Int64 },
        extension_types::Columndef { name: s("name"), logical: extension_types::Logicaltype::Text },
    ];
    assert!(scans.has_free_handle());
    let (run, action) = intercept_attach(run, AttachEvent::Described(Ok(columns)), attached, scans);
    match &action {
        AttachAction::RegisterFunction { name, shape } => {
            assert_eq!(name, &format!("__{alias}_t"));
            assert_eq!(run.shapes[*shape].columns.len(), 2);
        }
        other => panic!("{other:?}"),
    }
    let (run, action) = intercept_attach(run, AttachEvent::Registered(Reply::Done), attached, scans);
    assert!(matches!(action, AttachAction::Execute { ref sql } if sql == &format!("ATTACH ':memory:' AS {alias}")));
    let (run, action) = intercept_attach(run, AttachEvent::Executed(Reply::Done), attached, scans);
    assert!(matches!(action, AttachAction::Execute { ref sql } if sql.starts_with("CREATE OR REPLACE VIEW ")));
    let (run, action) = intercept_attach(run, AttachEvent::Executed(Reply::Done), attached, scans);
    assert!(matches!(
        action,
        AttachAction::ProbePersistence { ref extension, handle: 8 } if extension == "sq"
    ));
    let (_, action) = intercept_attach(run, AttachEvent::Probed(Ok(persists)), attached, scans);
    assert!(matches!(action, AttachAction::Finish(Ok(_))));
}

#[test]
fn attached_tables_become_views() {
    let mut attached = NameMap::new();
    let mut scans = ScanRegistry::new();
    attach(&mut attached, &mut scans, "db", "file:///tmp/x.sqlite", false);
    let cat = attached.get("db").unwrap();
    assert_eq!(cat.extension, "sq");
    assert_eq!(cat.catalog_handle, 3);
    assert_eq!(cat.dsn_path, Some(s("/tmp/x.sqlite")));
    let (table, handle) = &cat.table_callbacks[0];
    assert_eq!(table, "t");
    let target = scans.target(*handle).unwrap();
    assert_eq!((target.extension.as_str(), target.storage_handle, target.catalog_handle), ("sq", 8, 3));
}

#[test]
fn a_failed_attach_leaves_nothing() {
    let mut attached: NameMap<AttachedForeignCatalog> = NameMap::new();
    let mut scans = ScanRegistry::new();
    match begin_attach(&manager(), spec("db", "x"), &attached) {
        Err(Err(e)) => assert!(cli_message(&e).contains("No storage extension registered for TYPE sqlitewasm")),
        other => panic!("{other:?}"),
    }
    let (run, _) = begin_attach(&storages(), spec("db", "x"), &attached)
        .unwrap_or_else(|e| panic!("{e:?}"));
    let (_, action) = intercept_attach(
        run,
        AttachEvent::Opened(Err(extension_types::Duckerror::Io(s("no file")))),
        &mut attached,
        &mut scans,
    );
    match action {
        AttachAction::Finish(Err(e)) => assert!(cli_message(&e).contains("no file")),
        other => panic!("{other:?}"),
    }
    assert_eq!(attached.len(), 0);
}

#[test]
fn the_type_decides_who_opens_the_catalog() {
    let attached: NameMap<AttachedForeignCatalog> = NameMap::new();
    let mut wanted = spec("db", "host=h");
    wanted.ty_name = s("mysql");
    let (run, action) = begin_attach(&storages(), wanted, &attached)
        .unwrap_or_else(|e| panic!("{e:?}"));
    assert!(matches!(
        action,
        AttachAction::OpenCatalog { ref extension, handle: 5, .. } if extension == "my"
    ));
    assert_eq!((run.extension.as_str(), run.callback_handle), ("my", 5));
    // A step that allots no scan handle needs none to be free.
    let mut attached = attached;
    let mut scans = ScanRegistry::new();
    let (_, action) = intercept_attach(run, AttachEvent::Opened(Ok(2)), &mut attached, &mut scans);
    assert!(matches!(
        action,
        AttachAction::ListTables { ref extension, handle: 5, catalog: 2 } if extension == "my"
    ));
}

#[test]
fn attach_helpers() {
    assert_eq!(at5_synth_fn_name("db", "t"), "__db_t");
    assert_eq!(resolve_attach_dsn_path(" /a/b "), Some(s("/a/b")));
    assert_eq!(resolve_attach_dsn_path("file:///a"), Some(s("/a")));
    assert_eq!(resolve_attach_dsn_path("mysql://h"), None);
    assert_eq!(resolve_attach_dsn_path("  "), None);
    assert_eq!(resolve_attach_dsn_path("host=localhost user=root"), None);
    assert_eq!(resolve_attach_dsn_path("dbname = shop"), None);
    assert_eq!(resolve_attach_dsn_path("/data/year=2024/x.db"), Some(s("/data/year=2024/x.db")));
    assert_eq!(resolve_attach_dsn_path("./a=b.db"), Some(s("./a=b.db")));
    let e = cli_extension_duckerror(extension_types::Duckerror::Invalidstate(s("x")));
    assert!(matches!(e, Duckerror::Invalidstate(_)));
}

// --- writes ----------------------------------------------------------------

fn columns() -> Vec<extension_types::Columndef> {
    vec![
        extension_types::Columndef { name: s("rowid"), logical: extension_types::Logicaltype::Int64 },
        extension_types::Columndef { name: s("name"), logical: extension_types::Logicaltype::Text },
    ]
}

fn database(persists: bool) -> NameMap<AttachedForeignCatalog> {
    let mut attached = NameMap::new();
    let mut scans = ScanRegistry::new();
    attach(&mut attached, &mut scans, "db", "/tmp/x.sqlite", persists);
    attached
}

#[test]
fn an_update_keeps_what_it_does_not_assign() {
    let db = database(true);
    let route = WriteRoute::Update {
        alias: s("db"),
        table: s("t"),
        assignments: vec![
            (s("name"), ValueLiteral::Text(s("first"))),
            (s("name"), ValueLiteral::Text(s("second"))),
        ],
        where_clause: Some(s("rowid = 7")),
    };
    let (state, action) = begin_write(route, &db);
    match action {
        WriteAction::TableColumns { target, .. } => {
            assert_eq!((target.extension.as_str(), target.handle, target.catalog), ("sq", 8, 3));
        }
        other => panic!("{other:?}"),
    }
    let (state, action) = intercept_write(state, WriteEvent::Columns(Ok(columns())), &db);
    match &action {
        WriteAction::Scan { sql } => assert!(sql.contains("db.main.t") && sql.contains("rowid = 7"), "{sql}"),
        other => panic!("{other:?}"),
    }
    let found = core_types::QueryResult {
        columns: vec![],
        rows: vec![vec![core_types::Duckvalue::Int64(7), core_text("old")]],
    };
    let (state, action) = intercept_write(state, WriteEvent::Scanned(ScanReply::Rows(found)), &db);
    match action {
        WriteAction::Update { target, table, rowids, rows } => {
            assert_eq!((target.catalog, table.as_str(), rowids), (3, "t", vec![7]));
            assert_eq!((target.extension.as_str(), target.handle), ("sq", 8));
            assert!(matches!(rows[0][0], extension_types::Duckvalue::Int64(7)));
            assert!(matches!(rows[0][1], extension_types::Duckvalue::Text(ref t) if t == "second"));
        }
        other => panic!("{other:?}"),
    }
    let (_, action) = intercept_write(state, WriteEvent::Stored(Ok(1)), &db);
    assert!(matches!(action, WriteAction::Finish(Ok(_))));
}

#[test]
fn a_write_is_written_back_where_needed() {
    let db = database(false);
    let route = WriteRoute::Insert {
        alias: s("db"),
        table: s("t"),
        columns: vec![],
        rows: vec![vec![ValueLiteral::Integer(1), ValueLiteral::Text(s("a"))]],
    };
    let (state, action) = begin_write(route, &db);
    assert!(matches!(action, WriteAction::Insert { ref target, .. } if target.handle == 8), "{action:?}");
    let (state, action) = intercept_write(state, WriteEvent::Stored(Ok(1)), &db);
    assert!(matches!(
        action,
        WriteAction::Serialize { ref target } if target.extension == "sq" && target.catalog == 3
    ));
    let (state, action) = intercept_write(state, WriteEvent::Serialized(Ok(vec![1, 2])), &db);
    match &action {
        WriteAction::WriteFile { path, bytes } => {
            assert_eq!(path, "/tmp/x.sqlite");
            assert_eq!(bytes, &vec![1, 2]);
        }
        other => panic!("{other:?}"),
    }
    let (_, action) = intercept_write(state, WriteEvent::Written(Ok(())), &db);
    assert!(matches!(action, WriteAction::Finish(Ok(_))));
}

#[test]
fn a_failed_write_is_reported() {
    let db = database(false);
    let (_, action) = begin_write(WriteRoute::Unsupported(s("RETURNING")), &db);
    match action {
        WriteAction::Finish(Err(Duckerror::Unsupported(m))) => assert!(m.contains("RETURNING")),
        other => panic!("{other:?}"),
    }
    let route = WriteRoute::Delete { alias: s("gone"), table: s("t"), where_clause: None };
    let (_, action) = begin_write(route, &db);
    match action {
        WriteAction::Finish(Err(e)) => {
            assert_eq!(cli_message(&e), "alias gone disappeared before dispatch")
        }
        other => panic!("{other:?}"),
    }
    let route = WriteRoute::Insert {
        alias: s("db"),
        table: s("t"),
        columns: vec![],
        rows: vec![vec![ValueLiteral::Raw(s("now()"))]],
    };
    let (_, action) = begin_write(route, &db);
    assert!(matches!(action, WriteAction::Finish(Err(_))));
}

#[test]
fn a_read_only_catalog_takes_no_write() {
    let catalog = AttachedForeignCatalog {
        extension: s("sq"),
        catalog_handle: 3,
        callback_handle: 8,
        ty_name: s("sqlitewasm"),
        tables: vec![s("t")],
        table_callbacks: vec![],
        dsn_path: None,
        read_only: true,
        writes_persist_directly: false,
    };
    let mut db = NameMap::new();
    db.insert(s("db"), catalog);
    let routes = vec![
        WriteRoute::Insert { alias: s("db"), table: s("t"), columns: vec![], rows: vec![] },
        WriteRoute::Update { alias: s("db"), table: s("t"), assignments: vec![], where_clause: None },
        WriteRoute::Delete { alias: s("db"), table: s("t"), where_clause: None },
        WriteRoute::CreateTable {
            alias: s("db"),
            table: s("n"),
            definitions: vec![],
            if_not_exists: true,
        },
    ];
    for route in routes {
        match begin_write(route, &db).1 {
            WriteAction::Finish(Err(Duckerror::Unsupported(m))) => {
                assert!(m.contains("db is attached READ_ONLY"), "{m}");
            }
            other => panic!("{other:?}"),
        }
    }
}

#[test]
fn rows_are_deleted_by_identifier() {
    let db = database(true);
    let route = WriteRoute::Delete { alias: s("db"), table: s("t"), where_clause: None };
    let (state, _) = begin_write(route, &db);
    let (state, _) = intercept_write(state, WriteEvent::Columns(Ok(columns())), &db);
    let found = core_types::QueryResult {
        columns: vec![],
        rows: vec![
            vec![core_types::Duckvalue::Int64(7), core_text("x")],
            vec![core_types::Duckvalue::Uint32(9), core_text("y")],
        ],
    };
    let (_, action) = intercept_write(state, WriteEvent::Scanned(ScanReply::Rows(found)), &db);
    match action {
        WriteAction::Delete { rowids, .. } => assert_eq!(rowids, vec![7, 9]),
        other => panic!("{other:?}"),
    }
}

#[test]
fn a_table_is_created_with_its_types() {
    let db = database(true);
    let route = WriteRoute::CreateTable {
        alias: s("db"),
        table: s("n"),
        definitions: vec![ColumnSpec { name: s("id"), ty_name: s("BIGINT") }],
        if_not_exists: false,
    };
    let (_, action) = begin_write(route, &db);
    match action {
        WriteAction::Create { target, table, columns } => {
            assert_eq!((target.catalog, table.as_str()), (3, "n"));
            assert!(matches!(columns[0].logical, extension_types::Logicaltype::Int64));
        }
        other => panic!("{other:?}"),
    }
}

#[test]
fn a_table_that_is_there_is_not_created_again() {
    let db = database(true);
    let route = |lenient: bool| WriteRoute::CreateTable {
        alias: s("db"),
        table: s("T"),
        definitions: vec![ColumnSpec { name: s("id"), ty_name: s("BIGINT") }],
        if_not_exists: lenient,
    };
    let (state, action) = begin_write(route(true), &db);
    assert!(matches!(action, WriteAction::ListTables { .. }));
    let (_, action) = intercept_write(state, WriteEvent::Tables(Ok(vec![s("t")])), &db);
    assert!(matches!(action, WriteAction::Finish(Ok(_))));
    // It may also turn up only when it is made.
    let refused = || extension_types::Duckerror::Io(s("Table T Already Exists"));
    let (state, _) = begin_write(route(true), &db);
    let (state, action) = intercept_write(state, WriteEvent::Tables(Ok(vec![])), &db);
    assert!(matches!(action, WriteAction::Create { .. }));
    let (_, action) = intercept_write(state, WriteEvent::Stored(Err(refused())), &db);
    assert!(matches!(action, WriteAction::Finish(Ok(_))));
    let (state, _) = begin_write(route(false), &db);
    let (_, action) = intercept_write(state, WriteEvent::Stored(Err(refused())), &db);
    assert!(matches!(action, WriteAction::Finish(Err(Duckerror::Io(_)))));
}

#[test]
fn row_identifiers() {
    assert_eq!(at5_duckvalue_to_i64(&core_types::Duckvalue::Int64(-5)), Ok(-5));
    assert_eq!(at5_duckvalue_to_i64(&core_types::Duckvalue::Uint8(5)), Ok(5));
    assert_eq!(
        at5_duckvalue_to_i64(&core_types::Duckvalue::Uint64(u64::MAX)),
        Err(s("u64 rowid 18446744073709551615 overflows i64"))
    );
    assert_eq!(
        at5_duckvalue_to_i64(&core_types::Duckvalue::Null),
        Err(s("rowid duckvalue arm Duckvalue::Null is not an integer"))
    );
    let x: f64 = 1.0;
    let float = Float64value {
        bits: x.to_bits(),
        text: format!("{x}"),
        literal: format!("{x:?}"),
    };
    assert_eq!(
        at5_duckvalue_to_i64(&core_types::Duckvalue::Float64(float)),
        Err(s("rowid duckvalue arm Duckvalue::Float64(1.0) is not an integer"))
    );
    assert_eq!(
        at5_duckvalue_to_i64(&core_text("a\"b")),
        Err(s("rowid duckvalue arm Duckvalue::Text(\"a\\\"b\") is not an integer"))
    );
    assert_eq!(at5_locate_rowid_column(&columns(), "db", "t").unwrap(), 0);
    let none = vec![extension_types::Columndef {
        name: s("name"),
        logical: extension_types::Logicaltype::Text,
    }];
    assert!(at5_locate_rowid_column(&none, "db", "t").is_err());
    let rows = vec![vec![core_types::Duckvalue::Int64(1), core_text("a")]];
    let (ids, kept) = at5_prescan_rows(rows, 0, "db", "t").unwrap();
    assert_eq!(ids, vec![1]);
    assert_eq!(kept.len(), 1);
}

// --- prefixes --------------------------------------------------------------

#[test]
fn aliases_are_made_for_a_namespace() {
    let params = |x: &[&str]| x.iter().map(|p| s(p)).collect::<Vec<String>>();
    assert_eq!(
        build_prefix_alias_macro("scalar", "c", "f", "main", &params(&["x", "col0 INT"])),
        Some(s("CREATE OR REPLACE MACRO c.f(x, _a1) AS main.f(x, _a1)"))
    );
    assert_eq!(
        build_prefix_alias_macro("table", "c", "f", "main", &params(&[])),
        Some(s("CREATE OR REPLACE MACRO c.f() AS TABLE SELECT * FROM main.f()"))
    );
    assert_eq!(
        build_prefix_alias_macro("aggregate", "c", "f", "main", &params(&["x"])),
        Some(s("CREATE OR REPLACE MACRO c.f(x) AS list_aggregate(list(x), 'main.f')"))
    );
    assert_eq!(build_prefix_alias_macro("aggregate", "c", "f", "main", &params(&["x", "y"])), None);
    assert_eq!(build_prefix_alias_macro("pragma", "c", "f", "main", &params(&[])), None);
    let rows = vec![
        params(&["f", "scalar", "a,b"]),
        params(&["f", "scalar", "x , y"]),
        params(&["f", "scalar", "x"]),
        params(&["+", "scalar", "x"]),
        params(&["g"]),
    ];
    let plan = plan_aliases(&rows, "c", "main");
    let made: Vec<&str> = plan.iter().map(|a| a.sql.as_str()).collect();
    assert_eq!(
        made,
        vec![
            "CREATE OR REPLACE MACRO c.f(a, b) AS main.f(a, b)",
            "CREATE OR REPLACE MACRO c.f(x) AS main.f(x)",
        ]
    );
}

#[test]
fn a_declaration_is_set_up_and_stored() {
    let ok = || rows_reply(vec![]);
    let step = begin_prefix_declaration("c", "main");
    assert!(matches!(step.action, AliasAction::Execute { ref sql } if sql == "CREATE SCHEMA IF NOT EXISTS c"));
    let step = apply_prefix_declaration(step.run, ok());
    assert!(matches!(step.action, AliasAction::Execute { ref sql } if sql.contains("schema_name = 'main'")));
    let listed = rows_reply(vec![
        vec![core_text("f"), core_text("scalar"), core_text("x")],
        vec![core_text("g"), core_text("scalar"), core_text("x")],
    ]);
    let step = apply_prefix_declaration(step.run, listed);
    assert!(matches!(step.action, AliasAction::Make { index: 0 }));
    // One that fails is passed over.
    let step = apply_prefix_declaration(
        step.run,
        ExecReply::Failed(core_types::Duckerror::Internal(s("exists"))),
    );
    assert!(step.note.as_ref().unwrap().contains("'c.f' skipped: exists"));
    assert!(matches!(step.action, AliasAction::Make { index: 1 }));
    let step = apply_prefix_declaration(step.run, ok());
    assert!(matches!(step.action, AliasAction::Execute { ref sql } if sql.starts_with("INSERT OR REPLACE INTO ducklink.prefixes")));
    let step = apply_prefix_declaration(step.run, ok());
    assert!(matches!(step.action, AliasAction::Finish(Ok(1))));
}

#[test]
fn a_declaration_without_a_schema_fails() {
    let step = begin_prefix_declaration("c", "main");
    let step = apply_prefix_declaration(step.run, ExecReply::Trapped(s("t")));
    match step.action {
        AliasAction::Finish(Err(e)) => assert_eq!(e, "trap: t"),
        other => panic!("{other:?}"),
    }
    assert!(run_prefix_ddl(rows_reply(vec![])).is_ok());
    assert_eq!(
        run_prefix_query(rows_reply(vec![vec![core_types::Duckvalue::Null, core_text("x")]])),
        Ok(vec![vec![s(""), s("x")]])
    );
    assert_eq!(
        run_prefix_query(ExecReply::Failed(core_types::Duckerror::Io(s("e")))),
        Err(s("e"))
    );
}
