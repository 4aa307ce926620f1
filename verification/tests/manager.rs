use ducklink_host::dispatch::{
    begin_ducklink_load, BatchCall, CallbackEntry, CallbackKind, ScalarCall, TableCall,
};
use ducklink_host::extension_types::{Duckerror, Duckvalue};
use ducklink_host::load::{
    Captured, LoadAction, LoadEvent, LoadFailure, LoadState, LoadedComponent,
};
use ducklink_host::manager::{finish_parse, ExtensionManager};
use ducklink_host::reg::{
    CollationReg, FilesReg, IndexReg, NamedCallbackReg, PendingRegistrationsData, SecretReg,
    SettingReg, StorageReg,
};
use ducklink_host::resolve::{
    conformance_files, explain_resolution, read_registry_index, Resolution,
};
use ducklink_host::scan::{
    scan_step, ScanAction, ScanEvent, ScanRegistry, AT5_ATTACH_SCAN_HANDLE_MIN,
    DUCKLINK_LOAD_HANDLE, DUCKLINK_PREFIX_SCALAR_HANDLE, DUCKLINK_PREFIX_TABLE_HANDLE,
    RESOLVER_EXPLAIN_HANDLE, RESOLVER_SET_HANDLE,
};
use ducklink_host::settings::ResolvePolicy;
use ducklink_host::sibling::SiblingState;
use ducklink_host::storage::{StorageAction, StorageRequest, Target, WriteJob};
use ducklink_host::transaction::TxnEvent;

fn s(x: &str) -> String {
    x.to_string()
}

fn manager() -> ExtensionManager {
    ExtensionManager::new(ResolvePolicy::from_settings(None, None))
}

fn nothing() -> Captured {
    Captured {
        storages: vec![],
        indexes: vec![],
        files: vec![],
        collations: vec![],
        pragmas: vec![],
        parsers: vec![],
        optimizers: vec![],
        filterable_tables: vec![],
    }
}

fn storage(extension: &str, ty: &str, handle: u32) -> StorageReg {
    StorageReg { extension: s(extension), ty_name: s(ty), callback_handle: handle }
}

fn named(extension: &str, name: &str, handle: u32) -> NamedCallbackReg {
    NamedCallbackReg { extension: s(extension), name: s(name), callback_handle: handle }
}

fn message(e: &Duckerror) -> &str {
    ducklink_host::attach::extension_duckerror_message(e)
}

fn text(x: &str) -> Duckvalue {
    Duckvalue::Text(s(x))
}

fn entry(kind: CallbackKind, extension: &str, handle: u32) -> Option<CallbackEntry> {
    Some(CallbackEntry { kind, extension: s(extension), dispatcher_handle: handle })
}

/// Loads an extension that declares the given things.
fn load(m: &mut ExtensionManager, name: &str, captured: Captured, imports_query: bool) {
    let (state, action) = m.ensure_extension_loaded(name, false, "/ext");
    assert!(matches!(action, LoadAction::Resolve { .. }), "{action:?}");
    let (state, action) = m.load_step(state, LoadEvent::Resolved(Resolution::NoEntry), None);
    assert!(matches!(action, LoadAction::Check { .. }), "{action:?}");
    let (state, action) =
        m.load_step(state, LoadEvent::Checked { exists: true, core_attached: true }, None);
    assert!(matches!(action, LoadAction::Load { .. }), "{action:?}");
    let (state, action) =
        m.load_step(state, LoadEvent::Loaded(Ok(LoadedComponent { imports_query, captured })), None);
    assert!(matches!(state, LoadState::Finished));
    assert!(matches!(action, LoadAction::Finish(Ok(true))));
}

#[test]
fn a_load_goes_step_by_step() {
    let mut m = manager();
    let (state, action) = m.ensure_extension_loaded("my ext!", false, "/ext");
    match &action {
        LoadAction::Resolve { name } => assert_eq!(name, "my_ext_"),
        other => panic!("{other:?}"),
    }
    let chosen = Resolution::Chosen {
        id: s("ref"),
        kind: s("wasm"),
        contract: s("0123456789abcdef"),
        reasoning: s("best"),
        path: Some(s("registry/ref/thing.wasm/")),
    };
    let (state, action) = m.load_step(state, LoadEvent::Resolved(chosen), None);
    match &action {
        LoadAction::Check { path } => assert_eq!(path, "/ext/thing.wasm"),
        other => panic!("{other:?}"),
    }
    assert_eq!(
        m.last_resolutions.get("my_ext_").unwrap(),
        "chosen: ref [wasm] at contract 0123456789ab; best"
    );
    let (state, action) = m.load_step(
        state,
        LoadEvent::Checked { exists: true, core_attached: true },
        Some("other,MY_EXT_"),
    );
    match &action {
        LoadAction::Load { name, path, network, sqlite_preopens } => {
            assert_eq!(name, "my_ext_");
            assert_eq!(path, "/ext/thing.wasm");
            assert!(*network);
            assert!(!*sqlite_preopens);
        }
        other => panic!("{other:?}"),
    }
    // An event that does not belong here changes nothing.
    let (state, action) =
        m.load_step(state, LoadEvent::Checked { exists: true, core_attached: true }, None);
    assert!(matches!(action, LoadAction::Ignore));
    assert!(!m.is_loaded("my ext!"));
    let (_, action) = m.load_step(
        state,
        LoadEvent::Loaded(Ok(LoadedComponent { imports_query: false, captured: nothing() })),
        None,
    );
    assert!(matches!(action, LoadAction::Finish(Ok(true))));
    assert!(m.is_loaded("my ext!"));
    assert!(m.is_loaded("my_ext_"));
    // It is not loaded again.
    let (_, action) = m.ensure_extension_loaded("my?ext?", true, "/ext");
    assert!(matches!(action, LoadAction::Finish(Ok(true))));
}

#[test]
fn a_load_can_end_early() {
    let mut m = manager();
    let (state, action) = m.ensure_extension_loaded("x", true, "/ext");
    assert!(matches!(action, LoadAction::Materialize { .. }));
    let (_, action) = m.load_step(state, LoadEvent::Materialized(Err(s("no plan"))), None);
    assert!(matches!(action, LoadAction::Finish(Ok(false))));

    let (state, _) = m.ensure_extension_loaded("x", false, "/ext");
    let failed = Resolution::Failed { message: s("denied"), reasoning: s("all denied") };
    let (_, action) = m.load_step(state, LoadEvent::Resolved(failed), None);
    assert!(matches!(action, LoadAction::Finish(Ok(false))));
    assert_eq!(m.last_resolutions.get("x").unwrap(), "FAILED: all denied");

    for (exists, core_attached) in [(false, true), (true, false)] {
        let (state, _) = m.ensure_extension_loaded("x", true, "/ext");
        let (state, action) = m.load_step(state, LoadEvent::Materialized(Ok(s("/b.wasm"))), None);
        match action {
            LoadAction::Check { path } => assert_eq!(path, "/b.wasm"),
            other => panic!("{other:?}"),
        }
        let (_, action) = m.load_step(state, LoadEvent::Checked { exists, core_attached }, None);
        assert!(matches!(action, LoadAction::Finish(Ok(false))));
    }

    for (failure, want) in [
        (LoadFailure::Failed(s("bad magic")), "bad magic"),
        (LoadFailure::Panicked(s("\"oops\"")), "extension loader thread panicked: \"oops\""),
    ] {
        let state = LoadState::Loading { name: s("x") };
        let (_, action) = m.load_step(state, LoadEvent::Loaded(Err(failure)), None);
        match action {
            LoadAction::Finish(Err(e)) => assert_eq!(e, want),
            other => panic!("{other:?}"),
        }
    }
    assert!(!m.is_loaded("x"));
}

#[test]
fn only_the_sqlite_extension_gets_directories() {
    let mut m = manager();
    let state = LoadState::Checking { name: s("sqlitewasm"), path: s("p") };
    let (_, action) =
        m.load_step(state, LoadEvent::Checked { exists: true, core_attached: true }, None);
    match action {
        LoadAction::Load { network, sqlite_preopens, .. } => {
            assert!(!network);
            assert!(sqlite_preopens);
        }
        other => panic!("{other:?}"),
    }
}

#[test]
fn a_load_registers_what_was_declared() {
    let mut m = manager();
    m.sibling = Some(SiblingState::new());
    let mut c = nothing();
    c.storages = vec![storage("mysql", "mysql", 1), storage("mysql", "mysqlwasm", 2)];
    c.indexes = vec![IndexReg { extension: s("mysql"), ty_name: s("hnsw") }];
    c.files = vec![
        FilesReg { extension: s("old"), callback_handle: 1 },
        FilesReg { extension: s("mysql"), callback_handle: 9 },
    ];
    c.collations = vec![CollationReg {
        extension: s("mysql"),
        name: s("de"),
        transform_scalar: s("key"),
        combinable: true,
    }];
    c.pragmas = vec![named("mysql", "p", 3)];
    c.parsers = vec![named("mysql", "g", 4)];
    c.optimizers = vec![named("mysql", "o", 5)];
    load(&mut m, "mysql", c, true);
    assert!(m.catalog_snapshot.enabled);
    assert_eq!(m.sibling.as_ref().unwrap().loaded_extensions, vec!["mysql"]);
    assert_eq!(m.registered_storage_types(), vec!["mysql", "mysqlwasm"]);
    assert_eq!(m.registered_index_types(), vec!["hnsw"]);
    assert_eq!(m.registered_collations(), vec![(s("de"), s("key"), true)]);
    assert_eq!(m.registered_pragmas(), vec![(s("p"), 3)]);
    assert_eq!(m.registered_parsers(), vec![(s("g"), 4)]);
    assert_eq!(m.registered_optimizers(), vec![(s("o"), 5)]);
    assert!(m.registered_filterable_tables().is_empty());
    assert_eq!(m.files_target(), Ok((s("mysql"), 9)));
    assert_eq!(m.storage_backend_for("mysqlwasm"), Some((s("mysql"), 2)));
    assert_eq!(m.storage_backend_for("pg"), None);
    // All types have one backend, so it serves an ATTACH.
    assert_eq!(m.resolve_storage_backend().unwrap(), (s("mysql"), 1));
    assert_eq!(m.resolve_index_backend("other").unwrap(), "mysql");
}

#[test]
fn the_last_declaration_of_a_type_counts() {
    let mut m = manager();
    let mut c = nothing();
    c.storages = vec![storage("a", "t", 1), storage("b", "t", 2), storage("b", "u", 3)];
    m.capture(c);
    assert_eq!(m.storage_backend_for("t"), Some((s("b"), 2)));
    assert_eq!(m.registered_storage_types(), vec!["t", "u"]);
}

#[test]
fn ambiguous_backends_are_refused() {
    let mut m = manager();
    assert_eq!(
        message(&m.resolve_storage_backend().unwrap_err()),
        "no storage backend registered for 'sqlitewasm' (have 0 backend(s))"
    );
    assert_eq!(
        message(&m.resolve_index_backend("ivf").unwrap_err()),
        "no index backend registered for 'ivf' (have 0 backend(s))"
    );
    assert_eq!(
        m.files_target(),
        Err(s("no files backend loaded (LOAD a files extension, e.g. webfs)"))
    );
    let mut c = nothing();
    c.storages = vec![storage("a", "x", 1), storage("b", "y", 2)];
    c.indexes = vec![
        IndexReg { extension: s("a"), ty_name: s("x") },
        IndexReg { extension: s("b"), ty_name: s("y") },
    ];
    c.files = vec![FilesReg { extension: s("a"), callback_handle: 1 }];
    m.capture(c);
    assert_eq!(
        message(&m.storage_target().unwrap_err()),
        "no storage backend registered for 'sqlitewasm' (have 2 backend(s))"
    );
    assert!(m.index_target("z").is_err());
    assert_eq!(message(&m.index_target("y").unwrap_err()), "index extension 'b' not loaded");
    assert_eq!(m.files_target(), Err(s("files extension 'a' not loaded")));
    // The SQLite backend is preferred.
    let mut c = nothing();
    c.storages = vec![storage("sq", "sqlitewasm", 7)];
    m.capture(c);
    assert_eq!(m.resolve_storage_backend().unwrap(), (s("sq"), 7));
    assert_eq!(message(&m.storage_target().unwrap_err()), "storage extension 'sq' not loaded");
}

#[test]
fn parsers_and_optimizers_are_found_by_handle() {
    let mut m = manager();
    assert_eq!(
        message(&m.dispatch_parse(4).unwrap_err()),
        "no parser extension registered for handle 4"
    );
    assert_eq!(
        message(&m.dispatch_optimize(5, "[]").unwrap_err()),
        "no optimizer rule registered for handle 5"
    );
    let mut c = nothing();
    c.parsers = vec![named("e", "g", 4)];
    c.optimizers = vec![named("e", "o", 5)];
    m.capture(c);
    assert_eq!(message(&m.dispatch_parse(4).unwrap_err()), "parser extension 'e' not loaded");
    assert_eq!(
        message(&m.dispatch_optimize(5, "[]").unwrap_err()),
        "optimizer extension 'e' not loaded"
    );
    assert!(message(&m.dispatch_optimize(5, "{").unwrap_err()).starts_with("bad plan JSON: "));
    load(&mut m, "e", nothing(), false);
    assert_eq!(m.dispatch_parse(4).unwrap(), "e");
    let (ext, nodes) = m.dispatch_optimize(5, "[{\"id\":2}]").unwrap();
    assert_eq!((ext.as_str(), nodes.len(), nodes[0].0), ("e", 1, 2));
    assert!(matches!(finish_parse("e", "q", Ok(None)), Ok(None)));
    assert!(matches!(finish_parse("e", "q", Ok(Some(s("r")))), Ok(Some(ref r)) if r == "r"));
    assert_eq!(
        message(&finish_parse("e", "q", Ok(Some(s(" q ")))).unwrap_err()),
        "parser extension 'e' returned a rewrite identical to the input (would re-loop)"
    );
    assert_eq!(
        message(&finish_parse("e", "q", Ok(Some(s(" ")))).unwrap_err()),
        "parser extension 'e' returned an empty rewrite"
    );
}

#[test]
fn callbacks_go_to_their_extension() {
    let mut m = manager();
    load(&mut m, "e", nothing(), false);
    let route = m.dispatch_aggregate(1, entry(CallbackKind::Aggregate, "e", 11)).unwrap();
    assert_eq!((route.extension.as_str(), route.dispatcher_handle), ("e", 11));
    assert_eq!(
        message(&m.dispatch_aggregate(1, entry(CallbackKind::Scalar, "e", 11)).unwrap_err()),
        "unknown aggregate callback handle 1"
    );
    assert_eq!(
        message(&m.dispatch_pragma(2, None).unwrap_err()),
        "unknown pragma callback handle 2"
    );
    assert_eq!(
        message(&m.dispatch_cast(3, entry(CallbackKind::Cast, "gone", 1)).unwrap_err()),
        "extension gone is not loaded"
    );
    assert_eq!(
        message(&m.dispatch_table_stream(4, None).unwrap_err()),
        "unknown filterable-table handle 4"
    );
    assert!(matches!(
        m.dispatch_scalar(5, &[], entry(CallbackKind::Scalar, "e", 6)),
        Ok(ScalarCall::Forward(ref r)) if r.dispatcher_handle == 6
    ));
    assert_eq!(
        message(&m.dispatch_scalar(5, &[], entry(CallbackKind::Table, "e", 6)).unwrap_err()),
        "callback handle 5 is not scalar"
    );
    assert_eq!(
        message(&m.dispatch_scalar(5, &[], None).unwrap_err()),
        "unknown scalar callback handle 5"
    );
    assert!(matches!(
        m.dispatch_table(5, &[], entry(CallbackKind::Table, "e", 6)),
        Ok(TableCall::Forward(_))
    ));
    assert_eq!(
        message(&m.dispatch_table(5, &[], None).unwrap_err()),
        "unknown table callback handle 5"
    );
    let rows = vec![vec![]];
    assert!(matches!(
        m.dispatch_scalar_batch(5, &rows, entry(CallbackKind::Scalar, "e", 6)),
        Ok(BatchCall::Forward(_))
    ));
    assert_eq!(
        message(
            &m.dispatch_scalar_batch(5, &rows, entry(CallbackKind::Table, "e", 6)).unwrap_err()
        ),
        "unknown scalar callback handle 5"
    );
}

#[test]
fn prefix_declarations_wait_once() {
    let mut m = manager();
    let args = [text("c"), text("main")];
    match m.dispatch_scalar(DUCKLINK_PREFIX_SCALAR_HANDLE, &args, None).unwrap() {
        ScalarCall::Answered(Duckvalue::Text(t)) => {
            assert_eq!(t, "alias='c' namespace='main' macros=0 (deferred)")
        }
        other => panic!("{other:?}"),
    }
    match m.dispatch_table(DUCKLINK_PREFIX_TABLE_HANDLE, &args, None).unwrap() {
        TableCall::Answered(rows) => {
            assert_eq!(rows.len(), 1);
            assert!(matches!(rows[0][2], Duckvalue::Int64(0)));
        }
        other => panic!("{other:?}"),
    }
    let rows = vec![vec![text("c"), text("main")], vec![text("d"), text("x1")]];
    match m.dispatch_scalar_batch(DUCKLINK_PREFIX_SCALAR_HANDLE, &rows, None).unwrap() {
        BatchCall::Answered(out) => assert_eq!(out.len(), 2),
        other => panic!("{other:?}"),
    }
    assert_eq!(
        m.take_deferred_prefix_declarations(),
        vec![(s("c"), s("main")), (s("d"), s("x1"))]
    );
    assert!(m.take_deferred_prefix_declarations().is_empty());
}

#[test]
fn prefix_declarations_are_checked() {
    let mut m = manager();
    for (args, want) in [
        (vec![], "ducklink_prefix: missing required VARCHAR argument 'alias'"),
        (vec![Duckvalue::Null], "ducklink_prefix: missing required VARCHAR argument 'alias'"),
        (vec![Duckvalue::Int64(1)], "ducklink_prefix: first argument (alias) must be VARCHAR"),
        (vec![text("a")], "ducklink_prefix: missing required VARCHAR argument 'namespace'"),
        (
            vec![text("a"), Duckvalue::Boolean(true)],
            "ducklink_prefix: second argument (namespace) must be VARCHAR",
        ),
        (
            vec![text("a;"), text("b")],
            "ducklink_prefix: alias and namespace must match [A-Za-z0-9_]+ (got alias='a;', namespace='b')",
        ),
    ] {
        let err = m.native_ducklink_prefix_common(&args).unwrap_err();
        assert!(matches!(err, Duckerror::Invalidargument(_)));
        assert_eq!(message(&err), want);
    }
    // A refused row ends a batch; the rows before it wait.
    let rows = vec![vec![text("a"), text("b")], vec![], vec![text("c"), text("d")]];
    assert!(m.dispatch_scalar_batch(DUCKLINK_PREFIX_SCALAR_HANDLE, &rows, None).is_err());
    assert_eq!(m.take_deferred_prefix_declarations(), vec![(s("a"), s("b"))]);
}

#[test]
fn load_requests_are_checked() {
    for (args, want) in [
        (vec![], "ducklink_load: missing required VARCHAR argument 'name'"),
        (vec![Duckvalue::Int8(1)], "ducklink_load: first argument must be VARCHAR"),
        (
            vec![text("x"), Duckvalue::Int8(1)],
            "ducklink_load: second argument (kind) must be VARCHAR",
        ),
        (
            vec![text("x"), text("ZIP")],
            "ducklink_load: kind must be 'wasm' or 'native', got 'zip'",
        ),
    ] {
        let err = begin_ducklink_load(&args).unwrap_err();
        assert!(matches!(err, Duckerror::Invalidargument(_)));
        assert_eq!(message(&err), want);
    }
    let err = begin_ducklink_load(&[text("x"), text("Native")]).unwrap_err();
    assert!(matches!(err, Duckerror::Unsupported(_)));
    assert!(message(&err).contains("no native provider path yet"));
    let q = begin_ducklink_load(&[text("my ext"), text("WASM")]).unwrap();
    assert_eq!((q.name.as_str(), q.sanitized.as_str()), ("my ext", "my_ext"));
    assert!(begin_ducklink_load(&[text("x"), Duckvalue::Null]).is_ok());
}

#[test]
fn load_answers_with_counts_and_waits_once() {
    let mut m = manager();
    let q = match m.dispatch_table(DUCKLINK_LOAD_HANDLE, &[text("my ext")], None).unwrap() {
        TableCall::Load(q) => q,
        other => panic!("{other:?}"),
    };
    let err = m.native_ducklink_load(&q, Err(s("trap")), None).unwrap_err();
    assert!(matches!(err, Duckerror::Internal(_)));
    assert_eq!(message(&err), "ducklink_load: failed to load 'my ext': trap");
    let err = m.native_ducklink_load(&q, Ok(false), None).unwrap_err();
    assert!(message(&err).contains("no admissible provider for 'my ext'"));
    assert!(message(&err).contains("<extensions-dir>/my_ext.wasm"));
    assert!(m.take_deferred_drain_names().is_empty());

    let mut drained = PendingRegistrationsData::new();
    drained.storages = vec![storage("my_ext", "t", 1)];
    drained.macros = vec![];
    drained.scalars = vec![];
    drained.tables = vec![];
    let rows = m.native_ducklink_load(&q, Ok(true), Some(drained)).unwrap();
    assert_eq!(rows.len(), 1);
    assert!(matches!(rows[0][0], Duckvalue::Text(ref t) if t == "my_ext"));
    assert!(matches!(rows[0][1], Duckvalue::Null));
    assert!(matches!(rows[0][2], Duckvalue::Int64(0)));
    let again = m.native_ducklink_load(&q, Ok(true), None).unwrap();
    assert_eq!(again.len(), 1);
    assert_eq!(m.take_deferred_drain_names(), vec!["my_ext"]);
    assert_eq!(m.deferred_registrations.storages.len(), 1);
}

#[test]
fn host_functions_reach_the_core_once() {
    let mut m = manager();
    let first = m.drain_pending_registrations(vec![]);
    let names: Vec<&str> = first.tables.iter().map(|t| t.name.as_str()).collect();
    assert_eq!(names, vec!["ducklink_load", "ducklink_prefix"]);
    assert_eq!(first.scalars.len(), 1);
    assert_eq!(first.scalars[0].callback_handle, DUCKLINK_PREFIX_SCALAR_HANDLE);
    assert_eq!(first.tables[0].callback_handle, DUCKLINK_LOAD_HANDLE);
    assert_eq!(first.tables[0].columns.len(), 5);
    let second = m.drain_pending_registrations(vec![]);
    assert!(second.tables.is_empty() && second.scalars.is_empty());
}

#[test]
fn secrets_and_options_are_noted() {
    let mut m = manager();
    let secret = |provider: Option<&str>, handle| SecretReg {
        extension: s("e"),
        ty_name: s("s3"),
        provider: provider.map(s),
        callback_handle: handle,
    };
    let mut batch = PendingRegistrationsData::new();
    batch.secrets = vec![secret(None, 1), secret(Some("chain"), 2)];
    batch.settings = vec![SettingReg {
        extension: s("e"),
        name: s("opt"),
        ty: s("VARCHAR"),
        scope: s("global"),
        description: None,
    }];
    batch.storages = vec![storage("e", "t", 3)];
    let drained = m.drain_pending_registrations(vec![batch]);
    assert_eq!(drained.secrets.len(), 2);
    assert_eq!(m.secret_backend_for("s3", None), Some((s("e"), 1)));
    assert_eq!(m.secret_backend_for("s3", Some("chain")), Some((s("e"), 2)));
    assert_eq!(m.secret_backend_for("s3", Some("other")), Some((s("e"), 1)));
    assert_eq!(m.secret_backend_for("gcs", Some("chain")), None);
    assert_eq!(m.setting_backend_for("opt").unwrap().1.scope, "global");
    assert!(m.setting_backend_for("none").is_none());
    assert_eq!(m.storage_backend_for("t"), Some((s("e"), 3)));
}

#[test]
fn provider_choice_is_explained_and_forced() {
    let mut m = manager();
    let rows = vec![vec![text("a")], vec![Duckvalue::Null], vec![]];
    match m.dispatch_scalar_batch(RESOLVER_EXPLAIN_HANDLE, &rows, None).unwrap() {
        BatchCall::Explain(names) => assert_eq!(names, vec!["a", "", ""]),
        other => panic!("{other:?}"),
    }
    let rows = vec![vec![text("AUTO")], vec![text("ref")]];
    match m.dispatch_scalar_batch(RESOLVER_SET_HANDLE, &rows, None).unwrap() {
        BatchCall::Answered(out) => {
            assert!(matches!(out[0], Duckvalue::Text(ref t) if t == "extension_provider override cleared (auto)"));
            assert!(matches!(out[1], Duckvalue::Text(ref t) if t == "extension_provider forced to 'ref'"));
        }
        other => panic!("{other:?}"),
    }
    assert_eq!(m.resolver_policy.forced_provider, Some(s("ref")));
    assert_eq!(
        explain_resolution("x", &Resolution::NoEntry),
        "'x': no manifest entry (backward-compat filename load)"
    );
    assert_eq!(
        explain_resolution("x", &Resolution::Failed { message: s("none"), reasoning: s("r") }),
        "'x': none"
    );
    let chosen = Resolution::Chosen {
        id: s("p"),
        kind: s("k"),
        contract: s("c"),
        reasoning: s("r"),
        path: None,
    };
    assert_eq!(explain_resolution("x", &chosen), "'x': chosen 'p' [k] at contract c; r");
    assert_eq!(m.resolve_provider_artifact("x", "/d", &chosen), Ok(s("/d/x.wasm")));
    assert_eq!(m.resolve_provider_artifact("y", "/d", &Resolution::NoEntry), Ok(s("/d/y.wasm")));
    assert_eq!(m.last_resolutions.len(), 2);
}

#[test]
fn conformance_suite_lies_in_the_source_directory() {
    let index = read_registry_index(Some(
        r#"{"extensions":[{"name":"a","source":"ext/a"},{"name":"b"},{"name":"a","source":"z"}]}"#,
    ));
    assert_eq!(
        conformance_files(&index, "a", "/w"),
        Some((s("/w/ext/a/conformance.sql"), s("/w/ext/a/conformance.expected")))
    );
    assert_eq!(conformance_files(&index, "b", "/w"), None);
    assert_eq!(conformance_files(&index, "c", "/w"), None);
    assert!(read_registry_index(Some("{")).is_none());
    assert!(read_registry_index(None).is_none());
    assert_eq!(conformance_files(&None, "a", "/w"), None);
    assert_eq!(conformance_files(&read_registry_index(Some("[]")), "a", "/w"), None);
}

#[test]
fn attached_tables_are_scanned_by_handle() {
    let mut m = manager();
    assert_eq!(
        message(&m.dispatch_table(AT5_ATTACH_SCAN_HANDLE_MIN, &[], None).unwrap_err()),
        "unknown AT5 attach-scan handle 4290772992"
    );
    assert!(m.scans.has_free_handle());
    let h = m.scans.register_at5_scan(s("e"), 1, 2, s("t"));
    assert_eq!(h, AT5_ATTACH_SCAN_HANDLE_MIN);
    assert_eq!(
        message(&m.dispatch_table(h, &[], None).unwrap_err()),
        "AT5 attach-scan handle 4290772992 points at extension 'e', which is not loaded"
    );
    load(&mut m, "e", nothing(), false);
    let start = match m.dispatch_table(h, &[], None).unwrap() {
        TableCall::Scan(start) => start,
        other => panic!("{other:?}"),
    };
    assert_eq!((start.extension.as_str(), start.catalog_handle, start.table.as_str()), ("e", 2, "t"));
    let (state, action) = scan_step(start.state, ScanEvent::Opened(Ok(7)));
    assert!(matches!(action, ScanAction::Next { storage_handle: 1, scan: 7, max_rows: u32::MAX }));
    let (state, _) = scan_step(state, ScanEvent::Batch(Ok(vec![vec![Duckvalue::Int64(1)]])));
    let (state, _) = scan_step(state, ScanEvent::Batch(Ok(vec![vec![Duckvalue::Int64(2)]])));
    let (state, action) = scan_step(state, ScanEvent::Batch(Ok(vec![])));
    assert!(matches!(action, ScanAction::Close { storage_handle: 1, scan: 7 }));
    match scan_step(state, ScanEvent::Closed).1 {
        ScanAction::Finish(Ok(rows)) => assert_eq!(rows.len(), 2),
        other => panic!("{other:?}"),
    }
}

#[test]
fn scan_handles_are_distinct() {
    let mut r = ScanRegistry::new();
    let a = r.register_at5_scan(s("e"), 1, 2, s("t"));
    let b = r.register_at5_scan(s("e"), 1, 2, s("t"));
    assert_ne!(a, b);
    assert_eq!(r.target(b).unwrap().table, "t");
    assert!(r.target(b + 1).is_none());
}

fn target(catalog: u32) -> Target {
    Target { extension: s("e"), handle: 9, catalog }
}

#[test]
fn writes_run_in_their_own_transaction() {
    let mut m = manager();
    let rows = || vec![vec![Duckvalue::Int64(1)]];
    let (_, action) = m.dispatch_storage_insert_direct(target(5), s("t"), rows());
    assert!(matches!(action, StorageAction::Finish(Err(Duckerror::Invalidstate(_)))));
    let mut c = nothing();
    c.storages = vec![storage("e", "t", 9)];
    load(&mut m, "e", c, false);
    let (w, action) = m.dispatch_storage_insert_direct(target(5), s("t"), rows());
    match action {
        StorageAction::Ask(call) => {
            assert_eq!((call.extension.as_str(), call.handle), ("e", 9));
            assert!(matches!(call.request, StorageRequest::Begin { catalog: 5 }));
        }
        other => panic!("{other:?}"),
    }
    let (w, action) = m.storage_step(w, TxnEvent::Began(Ok(3)));
    match action {
        StorageAction::Ask(call) => match call.request {
            StorageRequest::Write { txn, job: WriteJob::Insert { table, rows } } => {
                assert_eq!((txn, table.as_str(), rows.len()), (3, "t", 1));
            }
            other => panic!("{other:?}"),
        },
        other => panic!("{other:?}"),
    }
    let (w, action) = m.storage_step(w, TxnEvent::Worked(Ok(1)));
    assert!(matches!(
        action,
        StorageAction::Ask(ref call) if matches!(call.request, StorageRequest::Commit { txn: 3 })
    ));
    let (_, action) = m.storage_step(w, TxnEvent::Ended(Ok(())));
    assert!(matches!(action, StorageAction::Finish(Ok(1))));
}

#[test]
fn failed_writes_are_rolled_back() {
    let mut m = manager();
    let mut c = nothing();
    c.storages = vec![storage("e", "t", 9)];
    load(&mut m, "e", c, false);
    let (w, _) = m.dispatch_storage_delete_direct(target(5), s("t"), vec![1, 2]);
    let (w, _) = m.storage_step(w, TxnEvent::Began(Ok(3)));
    let (w, action) = m.storage_step(w, TxnEvent::Worked(Err(Duckerror::Io(s("full")))));
    assert!(matches!(
        action,
        StorageAction::Ask(ref call) if matches!(call.request, StorageRequest::Rollback { txn: 3 })
    ));
    // The rollback's own failure does not matter.
    let (_, action) = m.storage_step(w, TxnEvent::Ended(Err(Duckerror::Internal(s("worse")))));
    match action {
        StorageAction::Finish(Err(e)) => assert_eq!(message(&e), "full"),
        other => panic!("{other:?}"),
    }
    let (w, _) = m.dispatch_storage_update_direct(target(5), s("t"), vec![1], vec![vec![]]);
    let (_, action) = m.storage_step(w, TxnEvent::Began(Err(Duckerror::Io(s("busy")))));
    assert!(matches!(action, StorageAction::Finish(Err(Duckerror::Io(_)))));
    let (w, _) = m.dispatch_storage_create_table_direct(target(5), s("t"), vec![]);
    let (_, action) = m.storage_step(w, TxnEvent::Worked(Ok(1)));
    assert!(matches!(action, StorageAction::Ignore));
}

#[test]
fn storage_questions_go_to_the_backend() {
    let mut m = manager();
    assert!(m.dispatch_storage_list_tables(target(1)).is_err());
    let mut c = nothing();
    c.storages = vec![storage("e", "t", 9)];
    load(&mut m, "e", c, false);
    let call = m.dispatch_storage_list_tables(target(1)).unwrap();
    assert_eq!((call.extension.as_str(), call.handle), ("e", 9));
    assert!(matches!(call.request, StorageRequest::ListTables { catalog: 1 }));
    assert!(matches!(
        m.dispatch_storage_serialize(target(2)).unwrap().request,
        StorageRequest::Serialize { catalog: 2 }
    ));
    assert!(matches!(
        m.dispatch_storage_writes_persist_directly(s("e"), 9).unwrap().request,
        StorageRequest::WritesPersistDirectly
    ));
    assert!(matches!(
        m.dispatch_storage_table_columns(target(2), s("x")).unwrap().request,
        StorageRequest::TableColumns { catalog: 2, .. }
    ));
    let call = m.dispatch_storage_attach(s("e"), 9, s("d"), Ok(vec![1])).unwrap();
    assert_eq!((call.extension.as_str(), call.handle), ("e", 9));
    assert!(matches!(
        call.request,
        StorageRequest::Attach { ref dsn, ref bytes } if dsn == "d" && bytes == &vec![1]
    ));
    let e = m.dispatch_storage_attach(s("e"), 9, s("d"), Err(s("denied"))).unwrap_err();
    assert_eq!(message(&e), "cannot read attach file 'd': denied");
    let e = m.dispatch_storage_attach(s("f"), 9, s("d"), Ok(vec![])).unwrap_err();
    assert_eq!(message(&e), "storage extension 'f' not loaded");
}
