use ducklink_host::archive::replay_pending_registrations;
use ducklink_host::core_types::{Columndef, Duckerror, Duckvalue, Logicaltype, QueryResult};
use ducklink_host::driver::{
    driver_bootstrap, driver_core_exec, driver_core_query, driver_open_error, driver_path,
};
use ducklink_host::manager::{validate_parser_rewrite, ExtensionManager};
use ducklink_host::reg::{self, PendingRegistrationsData};
use ducklink_host::settings::ResolvePolicy;
use ducklink_host::sibling::{
    begin_nested_exec, core_duckerror_message, is_extension_related_error, primary_nested_exec,
    sanitize_sibling_open_path, sibling_ensure_slot, sibling_nested_exec, slot_step,
    CatalogSnapshot, ExecReply, NestedRoute, SiblingState, SlotAction, SlotEvent, SlotState,
};

fn one_cell(v: Duckvalue) -> QueryResult {
    QueryResult {
        columns: vec![Columndef { name: "c".to_string(), logical: Logicaltype::Text }],
        rows: vec![vec![v]],
    }
}

fn text(s: &str) -> Duckvalue {
    Duckvalue::Text(s.to_string())
}

#[test]
fn parser_rewrite_guard_rejects_loops_and_empty() {
    // Empty / whitespace-only rewrite is rejected.
    assert!(validate_parser_rewrite("ggsql", "VISUALIZE x", "").is_err());
    assert!(validate_parser_rewrite("ggsql", "VISUALIZE x", "   \n\t").is_err());
    // A rewrite identical to the input (modulo surrounding whitespace) is the
    // simplest re-plan loop -> rejected.
    assert!(validate_parser_rewrite("ggsql", "VISUALIZE x", "VISUALIZE x").is_err());
    assert!(validate_parser_rewrite("ggsql", "  VISUALIZE x  ", "VISUALIZE x").is_err());
    // A genuine rewrite to different SQL is accepted (the core then binds it).
    assert!(validate_parser_rewrite("ggsql", "VISUALIZE x", "SELECT 1").is_ok());
}

#[test]
fn is_extension_related_error_flags_missing_function_shapes() {
    // Positive: DuckDB's dominant missing-function shape.
    assert!(is_extension_related_error(
        "Catalog Error: Scalar Function with name aba_validate does not exist!"
    ));
    assert!(is_extension_related_error(
        "Catalog Error: Table Function with name unknown_tf does not exist!"
    ));
    assert!(is_extension_related_error(
        "Missing Extension Error: 'httpfs' is required"
    ));
    assert!(is_extension_related_error(
        "extension 'spatial' is not loaded"
    ));
    assert!(is_extension_related_error(
        "Binder Error: No function matches the given name"
    ));
    // Negative: unrelated failures pass through unchanged.
    assert!(!is_extension_related_error(
        "Parser Error: syntax error at or near \"SELEKT\""
    ));
    assert!(!is_extension_related_error(
        "Catalog Error: Table with name t does not exist"
    )); // table, not function
    assert!(!is_extension_related_error(
        "IO Error: cannot open file"
    ));
}

#[test]
fn only_extensions_are_blamed() {
    assert!(is_extension_related_error(
        "Binder Error: reading from S3 requires the httpfs extension"
    ));
    assert!(!is_extension_related_error(
        "Catalog Error: Table with name function_log does not exist!"
    ));
}

#[test]
fn sanitize_sibling_open_path_normalizes_memory_marker_to_none() {
    assert_eq!(sanitize_sibling_open_path(None), None);
    assert_eq!(sanitize_sibling_open_path(Some(":memory:")), None);
    assert_eq!(sanitize_sibling_open_path(Some("")), None);
    assert_eq!(sanitize_sibling_open_path(Some("   ")), None);
    assert_eq!(
        sanitize_sibling_open_path(Some("/tmp/foo.duckdb")),
        Some("/tmp/foo.duckdb".to_string())
    );
}

#[test]
fn nested_exec_direction1_missing_extension_function() {
    let reply = ExecReply::Failed(Duckerror::Internal(
        "Catalog Error: Scalar Function with name some_missing_scalar_function does not exist!"
            .to_string(),
    ));
    let err = sibling_nested_exec(reply).err().expect("missing function should fail");
    assert!(
        err.starts_with("nested-exec (Direction 1):"),
        "expected Direction-1 redirect prefix, got: {err}"
    );
    assert!(
        err.contains("native ducklink DuckDB extension (Direction 2)"),
        "expected Direction-2 pointer in error, got: {err}"
    );
    assert!(
        err.contains("Underlying error:"),
        "expected the underlying error to be preserved, got: {err}"
    );
}

#[test]
fn nested_exec_direction1_syntax_error_passes_through_unchanged() {
    let message = "Parser Error: syntax error at or near \"SELEKT\"";
    let err = sibling_nested_exec(ExecReply::Failed(Duckerror::Internal(message.to_string())))
        .err()
        .expect("syntax error should fail");
    assert!(
        !err.starts_with("nested-exec (Direction 1):"),
        "syntax error must not be tagged Direction-2, got: {err}"
    );
    assert_eq!(err, message);
}

#[test]
fn nested_exec_direction1_in_memory_primary_errors_clearly() {
    let mut sibling = SiblingState::new();
    sibling.record_primary_open(Some("./d1-mem.duckdb".to_string()));
    // Override the record: pretend the primary opened `:memory:`.
    sibling.record_primary_open(None);
    match begin_nested_exec(false, Some(&sibling)) {
        NestedRoute::Fail(err) => assert!(
            err.contains("in-memory"),
            "expected in-memory explanation, got: {err}"
        ),
        other => panic!("{other:?}"),
    }
}

#[test]
fn nested_statement_goes_where_it_can() {
    assert!(matches!(begin_nested_exec(true, None), NestedRoute::Primary));
    match begin_nested_exec(false, None) {
        NestedRoute::Fail(m) => assert!(m.contains("not wired"), "{m}"),
        other => panic!("{other:?}"),
    }
    let mut sibling = SiblingState::new();
    match begin_nested_exec(false, Some(&sibling)) {
        NestedRoute::Fail(m) => assert!(m.contains("not yet opened"), "{m}"),
        other => panic!("{other:?}"),
    }
    sibling.record_primary_open(Some("db.duckdb".to_string()));
    match begin_nested_exec(false, Some(&sibling)) {
        NestedRoute::Sibling { path } => assert_eq!(path, "db.duckdb"),
        other => panic!("{other:?}"),
    }
}

#[test]
fn nested_answers_are_texts() {
    let n = primary_nested_exec(ExecReply::Rows(one_cell(Duckvalue::Int64(7)))).unwrap();
    assert_eq!(n.rows, Some(vec![vec!["7".to_string()]]));
    assert_eq!(n.rows_affected, None);
    let err = primary_nested_exec(ExecReply::Trapped("unreachable".to_string())).err().unwrap();
    assert_eq!(err, "nested-exec: primary call_execute trapped: unreachable");
    let err = primary_nested_exec(ExecReply::Failed(Duckerror::Io("x".to_string()))).err().unwrap();
    assert_eq!(err, "x");
    let err = sibling_nested_exec(ExecReply::Trapped("unreachable".to_string())).err().unwrap();
    assert_eq!(err, "nested-exec: sibling call_execute trapped: unreachable");
}

#[test]
fn error_messages_lose_their_kind() {
    for e in [
        Duckerror::Invalidargument("m".to_string()),
        Duckerror::Unsupported("m".to_string()),
        Duckerror::Invalidstate("m".to_string()),
        Duckerror::Io("m".to_string()),
        Duckerror::Internal("m".to_string()),
    ] {
        assert_eq!(core_duckerror_message(e), "m");
    }
}

#[test]
fn second_core_is_made_once_and_replays_one_load() {
    let mut sibling = SiblingState::new();
    sibling.record_extension_loaded("first");
    sibling.record_extension_loaded("second");
    sibling.record_extension_loaded("first");
    assert_eq!(sibling.loaded_extensions, vec!["first", "second"]);
    assert!(sibling_ensure_slot(true, "db", true, &sibling).is_none());
    let state = sibling_ensure_slot(false, "db", true, &sibling).expect("a core to make");
    let (state, action) = slot_step(state, SlotEvent::Prepared(Ok(())));
    assert!(matches!(action, SlotAction::Instantiate { shared: true }));
    let (state, action) = slot_step(state, SlotEvent::Instantiated(Ok(())));
    match action {
        SlotAction::Open { path, .. } => assert_eq!(path, "db"),
        other => panic!("{other:?}"),
    }
    let (state, action) = slot_step(state, SlotEvent::Opened(Ok(())));
    match action {
        SlotAction::Execute { sql } => assert_eq!(sql, "LOAD first;"),
        other => panic!("{other:?}"),
    }
    let (state, action) =
        slot_step(state, SlotEvent::Replayed(ExecReply::Trapped("boom".to_string())));
    assert!(matches!(state, SlotState::Ready));
    assert!(matches!(action, SlotAction::Finish { note: Some(_) }));
}

#[test]
fn second_core_that_does_not_open_is_no_core() {
    let sibling = SiblingState::new();
    let state = sibling_ensure_slot(false, "db", false, &sibling).unwrap();
    let (state, _) = slot_step(state, SlotEvent::Prepared(Ok(())));
    let (state, _) = slot_step(state, SlotEvent::Instantiated(Ok(())));
    let (state, action) = slot_step(state, SlotEvent::Opened(Err("locked".to_string())));
    assert!(matches!(state, SlotState::Failed));
    match action {
        SlotAction::Fail(m) => assert!(m.contains("locked"), "{m}"),
        other => panic!("{other:?}"),
    }
}

#[test]
fn snapshot_answers_while_the_core_is_busy() {
    let mut snap = CatalogSnapshot::new();
    assert!(snap.refresh_queries().is_empty());
    assert_eq!(
        snap.answer_busy("q").unwrap_err(),
        "query: core busy and no catalog snapshot for this SQL"
    );
    let rows = snap.answer_idle("q", ExecReply::Rows(one_cell(text("t1")))).unwrap();
    assert_eq!(rows, vec![vec!["t1".to_string()]]);
    assert_eq!(snap.answer_busy("q").unwrap(), rows);
    // A failure keeps what was there.
    assert!(snap.answer_idle("q", ExecReply::Trapped("x".to_string())).is_err());
    assert_eq!(snap.answer_busy("q").unwrap(), rows);
    snap.enabled = true;
    assert_eq!(snap.refresh_queries().len(), 2);
}

#[test]
fn phase4_fu4_sibling_replay_archive_populated_from_primary_drain() {
    let mut mgr = ExtensionManager::new(ResolvePolicy::from_settings(None, None));
    mgr.deferred_registrations.scalars.push(reg::ScalarReg {
        extension: "fu4_stub".to_string(),
        name: "fu4_stub_scalar".to_string(),
        arguments: vec![reg::FuncArg {
            name: Some("x".to_string()),
            logical: reg::LogicalType::Int64,
        }],
        returns: reg::LogicalType::Int64,
        callback_handle: 0x0000_1001,
        options: None,
    });
    mgr.deferred_registrations.tables.push(reg::TableReg {
        extension: "fu4_stub".to_string(),
        name: "fu4_stub_table".to_string(),
        arguments: vec![reg::FuncArg {
            name: Some("n".to_string()),
            logical: reg::LogicalType::Int64,
        }],
        columns: vec![reg::ColumnDef {
            name: "value".to_string(),
            logical: reg::LogicalType::Text,
        }],
        callback_handle: 0x0000_1002,
        options: None,
    });
    mgr.deferred_registrations.aggregates.push(reg::AggregateReg {
        extension: "fu4_stub".to_string(),
        name: "fu4_stub_agg".to_string(),
        arguments: vec![reg::FuncArg {
            name: Some("y".to_string()),
            logical: reg::LogicalType::Int64,
        }],
        returns: reg::LogicalType::Int64,
        callback_handle: 0x0000_1003,
        options: None,
    });
    let mut archive = Some(PendingRegistrationsData::new());
    let returned = mgr.get_pending_registrations(Vec::new(), &mut archive);
    {
        let archive = archive.as_ref().unwrap();
        let scalar_names: Vec<&str> = archive.scalars.iter().map(|s| s.name.as_str()).collect();
        let table_names: Vec<&str> = archive.tables.iter().map(|t| t.name.as_str()).collect();
        let agg_names: Vec<&str> = archive.aggregates.iter().map(|a| a.name.as_str()).collect();
        assert!(
            scalar_names.contains(&"fu4_stub_scalar"),
            "primary drain must have appended scalar into sibling archive; got {scalar_names:?}"
        );
        assert!(table_names.contains(&"fu4_stub_table"), "{table_names:?}");
        assert!(agg_names.contains(&"fu4_stub_agg"), "{agg_names:?}");
    }
    // The second core is served the archive, and the archive stays.
    let replayed = replay_pending_registrations(&archive);
    assert_eq!(format!("{replayed:?}"), format!("{returned:?}"));
    let again = replay_pending_registrations(&archive);
    assert_eq!(format!("{again:?}"), format!("{returned:?}"));
    // A later drain is added behind it.
    let later = mgr.get_pending_registrations(Vec::new(), &mut archive);
    assert!(later.scalars.is_empty() && later.tables.is_empty());
    assert_eq!(format!("{:?}", replay_pending_registrations(&archive)), format!("{returned:?}"));
}

#[test]
fn archive_is_optional() {
    let mut mgr = ExtensionManager::new(ResolvePolicy::from_settings(None, None));
    let mut archive = None;
    let first = mgr.get_pending_registrations(Vec::new(), &mut archive);
    assert!(archive.is_none());
    assert_eq!(first.tables.len(), 2);
    assert!(replay_pending_registrations(&archive).tables.is_empty());
}

#[test]
fn archive_copies_nested_types() {
    let mut mgr = ExtensionManager::new(ResolvePolicy::from_settings(None, None));
    mgr.deferred_registrations.scalars.push(reg::ScalarReg {
        extension: "e".to_string(),
        name: "f".to_string(),
        arguments: vec![],
        returns: reg::LogicalType::Struct(vec![
            ("a".to_string(), reg::LogicalType::List(Box::new(reg::LogicalType::Uuid))),
            ("b".to_string(), reg::LogicalType::Array(3, Box::new(reg::LogicalType::Int8))),
        ]),
        callback_handle: 1,
        options: Some(reg::FuncOpts {
            description: Some("d".to_string()),
            tags: vec!["t".to_string()],
            attributes: reg::FuncFlags { deterministic: true, ..reg::FuncFlags::default() },
        }),
    });
    let mut archive = Some(PendingRegistrationsData::new());
    let returned = mgr.get_pending_registrations(Vec::new(), &mut archive);
    let replayed = replay_pending_registrations(&archive);
    assert_eq!(format!("{:?}", replayed.scalars[0]), format!("{:?}", returned.scalars[0]));
    assert!(format!("{:?}", replayed.scalars[0]).contains("STRUCT(a UUID[], b TINYINT[3])"));
}

#[test]
fn driver_reads_its_core() {
    assert_eq!(driver_path(None), None);
    assert_eq!(driver_path(Some("")), None);
    assert_eq!(driver_path(Some("x.db")), Some("x.db".to_string()));
    assert_eq!(driver_open_error(true, "t"), "driver-core: call_open trapped: t");
    assert_eq!(driver_open_error(false, "e"), "driver-core: open failed: e");
    assert!(driver_bootstrap(ExecReply::Rows(one_cell(Duckvalue::Null))).is_ok());
    assert_eq!(
        driver_bootstrap(ExecReply::Failed(Duckerror::Io("e".to_string()))).unwrap_err(),
        "driver-core: bootstrap LOAD failed: e"
    );
    assert_eq!(
        driver_bootstrap(ExecReply::Trapped("t".to_string())).unwrap_err(),
        "driver-core: bootstrap LOAD trapped: t"
    );
    let mut counted = one_cell(Duckvalue::Int64(4));
    counted.columns[0].name = "Count".to_string();
    assert_eq!(driver_core_exec(ExecReply::Rows(counted)), Ok(4));
    assert_eq!(driver_core_exec(ExecReply::Rows(one_cell(Duckvalue::Int64(4)))), Ok(0));
    assert_eq!(
        driver_core_exec(ExecReply::Trapped("t".to_string())),
        Err("driver-core: trap: t".to_string())
    );
    assert_eq!(
        driver_core_query(ExecReply::Rows(one_cell(Duckvalue::Null))),
        Ok(vec![vec![String::new()]])
    );
    assert_eq!(
        driver_core_query(ExecReply::Failed(Duckerror::Io("e".to_string()))),
        Err("e".to_string())
    );
}
