use ducklink_host::core_types;
use ducklink_host::cwasm::{
    accept_key, engine_version, frame_artifact, is_precompiled, key_from_pool, key_path,
    name_has_extension, open_cwasm, refusal_text, seal_cwasm, split_frame, target, user_key_path,
    wasmtime_version, SealCheck,
};
use ducklink_host::dotcmd::{
    component_files, edit_file_name, editor_command, invoke_outcome, make_cli_outcome,
    spi_query, CommandSpec, DotcmdRegistry, InvokeReply,
};
use ducklink_host::ident::{
    build_load_sql, is_loadable_name, is_safe_prefix_identifier, sanitize_extension_name,
    short_digest,
};
use ducklink_host::names::NameMap;
use ducklink_host::paths::{
    component_candidates, dotcmd_root, extension_artifact_path, extension_dir, file_name_of,
    join_path, locate_component, parent_of, paths_equal, set_extension_root, workspace_root,
    ComponentArtifacts, Found,
};
use ducklink_host::preopens::{
    add_cache_root, caller_maps_cwd, read_dir_setting, resolve_preopens_with_default,
    wants_sqlite_preopens, DirSetting, Preopen,
};
use ducklink_host::services::{
    any_query_import, config_value, core_config_error_to_neutral,
    neutral_loglevel_to_core, ConfigError, ConfigReply, Configerror, LogLevel, Loglevel,
};
use ducklink_host::settings::{
    autoload_names, network_grant_allows, network_grant_policy_for, parse_env_providers,
    AutoloadItem, Capability, ProviderEntry, ResolvePolicy,
};
use ducklink_host::sibling::ExecReply;
use ducklink_host::text::{
    decimal_i128, decimal_u128, join, replace_char, split_list, split_on, text_before, trim,
};
use ducklink_host::tvm::{
    tvm_kind_to_core, CoreHandle, CoreRegionKind, Handle, RegionKind, SlotTable, TvmError,
};

fn s(x: &str) -> String {
    x.to_string()
}

#[test]
fn network_grant_adapter_preserves_behavior() {
    let granted = |g: Option<&str>, ext: &str| {
        network_grant_policy_for(g, ext).is_granted(Capability::Http)
    };
    // unset / none / empty -> deny every extension.
    assert!(!granted(None, "dns"));
    assert!(!granted(Some("none"), "dns"));
    assert!(!granted(Some(""), "dns"));
    // all / * -> grant every extension.
    assert!(granted(Some("all"), "dns"));
    assert!(granted(Some("*"), "anything"));
    // allowlist gates by name (case-insensitive); others denied.
    assert!(granted(Some("dns,http"), "http"));
    assert!(granted(Some("dns, http"), "DNS"));
    assert!(!granted(Some("dns,http"), "azure"));
    assert!(network_grant_allows(Some("ALL"), "x"));
    assert!(!network_grant_allows(Some("  "), "x"));
}

#[test]
fn settings_are_lists() {
    let items = autoload_names(Some("a b,c;d"));
    assert_eq!(items.len(), 3);
    assert!(matches!(items[0], AutoloadItem::Load(ref n) if n == "a"));
    assert!(matches!(items[2], AutoloadItem::Invalid(ref n) if n == "c;d"));
    assert_eq!(autoload_names(None).len(), 2);
    let mut p = ResolvePolicy::from_settings(Some(""), Some("x, y,"));
    assert_eq!(p.forced_provider, None);
    assert_eq!(p.denied, vec!["x", "y"]);
    assert_eq!(p.set_forced_provider("z"), "extension_provider forced to 'z'");
    assert_eq!(p.forced_provider, Some(s("z")));
    assert_eq!(p.set_forced_provider("None"), "extension_provider override cleared (auto)");
    assert_eq!(p.forced_provider, None);
}

#[test]
fn providers_are_read_from_their_setting() {
    let entries = parse_env_providers("py=/lib/py.wasm:/data=/d;bad;/x=/y, nope ,b=c");
    assert_eq!(entries.len(), 3);
    match &entries[0] {
        ProviderEntry::Provider { id, path, preopens, skipped } => {
            assert_eq!((id.as_str(), path.as_str()), ("py", "/lib/py.wasm"));
            assert_eq!(preopens.len(), 2);
            assert_eq!((preopens[0].host.as_str(), preopens[0].guest.as_str()), ("/d", "/data"));
            assert_eq!(skipped, &vec![s("bad")]);
        }
        other => panic!("{other:?}"),
    }
    assert!(matches!(entries[1], ProviderEntry::Malformed(ref t) if t == "nope"));
    assert!(matches!(entries[2], ProviderEntry::Provider { ref path, .. } if path == "c"));
}

#[test]
fn names_are_made_safe() {
    assert_eq!(sanitize_extension_name("my ext/1"), "my_ext_1");
    assert_eq!(sanitize_extension_name(""), "_");
    assert_eq!(sanitize_extension_name("a-b_C9"), "a-b_C9");
    assert!(is_loadable_name("a-b_1") && !is_loadable_name("a b"));
    assert!(is_safe_prefix_identifier("a_1") && !is_safe_prefix_identifier("a-1"));
    assert!(!is_safe_prefix_identifier(""));
    assert_eq!(build_load_sql("x"), "LOAD x;");
    assert_eq!(short_digest("0123456789abcdef"), "0123456789ab");
    assert_eq!(short_digest("abc"), "abc");
}

#[test]
fn paths_come_apart() {
    let parent = |p: &str| parent_of(p);
    assert_eq!(parent("/a/b"), Some(s("/a")));
    assert_eq!(parent("a/b/"), Some(s("a")));
    assert_eq!(parent("a//b"), Some(s("a")));
    assert_eq!(parent("a/./b/."), Some(s("a")));
    assert_eq!(parent("./a"), Some(s(".")));
    assert_eq!(parent("/a"), Some(s("/")));
    assert_eq!(parent("a"), Some(s("")));
    assert_eq!(parent("."), Some(s("")));
    assert_eq!(parent("/"), None);
    assert_eq!(parent("//"), None);
    assert_eq!(parent(""), None);
    for p in ["/a/b", "a/b/", "a//b", "a/./b/.", "./a", "/a", "a", ".", "/", "//", "", "..", "a/..", "//a/", "/.", "./."] {
        let want = std::path::Path::new(p).parent().map(|d| d.to_str().unwrap().to_string());
        assert_eq!(parent_of(p), want, "{p}");
        let want = std::path::Path::new(p).file_name().map(|d| d.to_str().unwrap().to_string());
        assert_eq!(file_name_of(p), want, "{p}");
    }
    for (root, rel) in [("/a", "b"), ("/a/", "b"), ("", "b"), ("/a", "/b"), ("/a", "")] {
        let want = std::path::Path::new(root).join(rel);
        assert_eq!(join_path(root, rel), want.to_str().unwrap());
    }
}

#[test]
fn components_are_located() {
    assert_eq!(workspace_root("/w/crates/host"), "/w");
    let (release, debug) = component_candidates("/w", "core.wasm");
    assert!(release.contains("release") && debug.contains("debug"));
    let found = |release, debug| Found { release, debug };
    assert_eq!(locate_component("/w", "core.wasm", found(true, true)), Ok(release.clone()));
    assert_eq!(locate_component("/w", "core.wasm", found(false, true)), Ok(debug));
    assert!(locate_component("/w", "core.wasm", found(false, false)).is_err());
    let both = ComponentArtifacts::resolve_default("/w", found(true, false), found(true, false)).unwrap();
    assert!(both.core_component.starts_with("/w/") && both.cli_component.starts_with("/w/"));
    assert!(ComponentArtifacts::resolve_default("/w", found(true, false), found(false, false)).is_err());
    let a = ComponentArtifacts::new(s("c"), s("d"));
    assert_eq!((a.core_component.as_str(), a.cli_component.as_str()), ("c", "d"));
}

#[test]
fn extension_directory_is_set_once() {
    let mut root = None;
    assert_eq!(extension_dir(&root, "/w"), "/w/artifacts/extensions");
    assert_eq!(dotcmd_root(&root, "/w"), "/w/artifacts/dotcmds");
    set_extension_root(&mut root, s("/x/ext/"));
    set_extension_root(&mut root, s("/y"));
    assert_eq!(extension_dir(&root, "/w"), "/x/ext/");
    assert_eq!(extension_artifact_path(&root, "/w", "e"), "/x/ext/e.wasm");
    assert_eq!(dotcmd_root(&root, "/w"), "/x/dotcmds");
    assert_eq!(dotcmd_root(&Some(s("/")), "/w"), "/w/artifacts/dotcmds");
}

#[test]
fn precompiled_files_are_framed() {
    let digest = vec![1u8; 32];
    let sealed = seal_cwasm(Some([vec![2u8; 32], vec![9, 9]].concat()), vec![9, 9]);
    let framed = frame_artifact(digest.clone(), sealed);
    assert_eq!(framed.len(), 66);
    let (d, rest) = split_frame(&framed).unwrap();
    assert_eq!(d, digest);
    assert_eq!(rest.len(), 34);
    assert_eq!(open_cwasm(&framed, SealCheck::NoKey), Some([vec![2u8; 32], vec![9, 9]].concat()));
    // What was sealed without a key comes back without one.
    let bare = frame_artifact(digest.clone(), seal_cwasm(None, vec![7, 8]));
    assert_eq!(open_cwasm(&bare, SealCheck::NoKey), Some(vec![7, 8]));
    assert_eq!(open_cwasm(&framed, SealCheck::Checked(None)), None);
    assert_eq!(open_cwasm(&framed, SealCheck::Checked(Some(vec![9, 9]))), Some(vec![9, 9]));
    assert_eq!(open_cwasm(&[0; 31], SealCheck::Checked(Some(vec![9]))), None);
    assert_eq!(open_cwasm(&[0; 31], SealCheck::NoKey), None);
    assert_eq!(open_cwasm(&[0; 32], SealCheck::NoKey), Some(vec![]));
    assert_eq!(seal_cwasm(None, vec![5]), vec![5]);
    assert!(split_frame(&[0; 31]).is_none());
}

#[test]
fn keys_have_one_length() {
    assert_eq!(accept_key(vec![1; 32]), Some(vec![1; 32]));
    assert_eq!(accept_key(vec![1; 31]), None);
    let pool: Vec<u8> = (0..40).collect();
    assert_eq!(key_from_pool(&pool), Some((0..32).collect()));
    assert_eq!(key_from_pool(&pool[..31]), None);
    let file = "/ducklink/compile-hmac.key".as_bytes();
    assert_eq!(key_path(Some(b"/c".to_vec())), Some([b"/c".to_vec(), file.to_vec()].concat()));
    assert_eq!(key_path(Some(b"/c/".to_vec())), Some([b"/c".to_vec(), file.to_vec()].concat()));
    // A directory whose name is no valid Unicode is kept.
    assert_eq!(key_path(Some(vec![47, 255])), Some([vec![47, 255], file.to_vec()].concat()));
    assert_eq!(key_path(None), None);
    if let Some(p) = user_key_path() {
        assert!(p.ends_with(file));
        assert!(p.len() > file.len());
    }
}

#[test]
fn compiled_code_is_bound_to_its_engine() {
    assert_eq!(wasmtime_version(), "46.0.1");
    assert_eq!(engine_version("1.2.3"), "ducklink-host-1.2.3-wasmtime-46.0.1-cm-exn");
    assert_eq!(target("x86_64", "linux"), "x86_64-linux");
    assert!(is_precompiled("/a/core.cwasm") && is_precompiled("core.cwasm/"));
    assert!(!is_precompiled("core.wasm") && !is_precompiled(".cwasm") && !is_precompiled(".."));
    for p in ["a.cwasm", ".cwasm", "..cwasm", "a.b.cwasm", "cwasm", "a.wasm", "d/x.cwasm"] {
        let want = std::path::Path::new(p).extension().and_then(|e| e.to_str()) == Some("cwasm");
        assert_eq!(is_precompiled(p), want, "{p}");
    }
    assert!(name_has_extension("é.wasm", "wasm"));
    assert!(refusal_text("p").starts_with("refusing to load p: precompiled artifact failed HMAC verification"));
}

#[test]
fn stale_handles_are_rejected() {
    let mut t = SlotTable::new();
    let block = |offset| CoreHandle { region_id: 1, generation: 0, offset };
    let a = t.tvm_register(1, block(8));
    assert!(t.tvm_resolve(a, false).is_ok());
    let b = t.tvm_register(1, block(16));
    assert_eq!(t.tvm_resolve(a, true).unwrap().offset, 8);
    assert!(matches!(t.tvm_resolve(a, false), Err(TvmError::StaleHandle)));
    let again = t.tvm_register(1, block(8));
    assert_ne!(again.generation, a.generation);
    assert!(t.tvm_resolve(a, false).is_err());
    assert!(t.tvm_resolve(again, false).is_ok());
    assert!(t.tvm_resolve(b, false).is_ok());
    assert!(t.tvm_resolve(Handle { region_id: 2, generation: 1, offset: 8 }, false).is_err());
    assert!(matches!(tvm_kind_to_core(RegionKind::Scratch), CoreRegionKind::Scratch));
}

fn command(name: &str, id: u64) -> CommandSpec {
    CommandSpec { name: s(name), id, summary: s("s"), usage: s("u") }
}

#[test]
fn dot_commands_are_routed() {
    let mut r = DotcmdRegistry::new();
    r.add_component(0, &vec![command("Zeta", 1), command("alpha", 2)]);
    r.add_component(1, &vec![command("ALPHA", 3), command("mid", 4)]);
    assert_eq!(r.route("zeta"), Some((0, 1)));
    assert_eq!(r.route("Alpha"), Some((0, 2)));
    assert_eq!(r.route("none"), None);
    let names: Vec<String> = r.list_commands().into_iter().map(|c| c.0).collect();
    assert_eq!(names, vec!["ALPHA", "Zeta", "alpha", "mid"]);
    let rows = core_types::QueryResult {
        columns: vec![],
        rows: vec![
            vec![core_types::Duckvalue::Int64(1), core_types::Duckvalue::Null],
            vec![core_types::Duckvalue::Text(s("x")), core_types::Duckvalue::Boolean(true)],
        ],
    };
    assert_eq!(spi_query(ExecReply::Rows(rows)), Ok(s("1\t\nx\ttrue\n")));
    assert_eq!(spi_query(ExecReply::Trapped(s("t"))), Err(s("spi query trapped: t")));
    let done = make_cli_outcome(s("t"), vec![(s("k"), s("v"))]);
    assert_eq!(done.state_deltas[0].key, "k");
    assert_eq!(invoke_outcome("x", InvokeReply::Done(done)).unwrap().text, "t");
    assert_eq!(invoke_outcome("x", InvokeReply::Failed(s("m"))).unwrap_err(), "m");
    assert_eq!(
        invoke_outcome("x", InvokeReply::Trapped(s("t"))).unwrap_err(),
        "dot-command 'x' trapped: t"
    );
}

#[test]
fn component_files_are_loaded_in_order() {
    let bytes = |x: &str| x.as_bytes().to_vec();
    // The last name is no valid Unicode.
    let odd = [vec![255u8], bytes(".wasm")].concat();
    let names = vec![
        odd.clone(),
        bytes("b.wasm"),
        bytes("readme.md"),
        bytes("a.wasm"),
        bytes(".wasm"),
        bytes("B.wasm"),
    ];
    assert_eq!(
        component_files(&names),
        vec![bytes("B.wasm"), bytes("a.wasm"), bytes("b.wasm"), odd]
    );
}

#[test]
fn the_editor_is_a_command_line() {
    let e = editor_command(Some("code -w  -n"), Some("nano"));
    assert_eq!(e.program, "code");
    assert_eq!(e.args, vec!["-w", "-n"]);
    assert_eq!(editor_command(None, Some("nano")).program, "nano");
    assert_eq!(editor_command(None, None).program, "vi");
    assert_eq!(editor_command(Some("  "), None).program, "vi");
    assert_eq!(edit_file_name(7, 99, " .sql "), "dotcmd-edit-7-99.sql");
}

fn preopen(host: &str, guest: &str) -> Preopen {
    Preopen { host: s(host), guest: s(guest) }
}

#[test]
fn the_working_directory_is_not_shadowed() {
    assert!(caller_maps_cwd(&vec![preopen("/x", "./")]));
    assert!(caller_maps_cwd(&vec![preopen("/x", "")]));
    assert!(!caller_maps_cwd(&vec![preopen("/x", "/x")]));
    let list = resolve_preopens_with_default(vec![preopen("/x", ".")], s("/cwd"), vec![]);
    assert_eq!(list.len(), 1);
    let list = resolve_preopens_with_default(
        vec![preopen("/x", "/x")],
        s("/cwd"),
        vec![preopen("/c", "/c"), preopen("/x", "/x")],
    );
    let hosts: Vec<&str> = list.iter().map(|p| p.host.as_str()).collect();
    assert_eq!(hosts, vec!["/cwd", "/x", "/c"]);
    assert_eq!(list[0].guest, ".");
    assert!(matches!(read_dir_setting("  "), DirSetting::Blank));
    assert!(matches!(read_dir_setting("rel"), DirSetting::NotAbsolute(_)));
    assert!(matches!(read_dir_setting("/abs"), DirSetting::Absolute(ref p) if p == "/abs"));
    let mut roots = vec![];
    add_cache_root(&mut roots, s("/a"));
    add_cache_root(&mut roots, s("/a"));
    // The same directory, written otherwise.
    add_cache_root(&mut roots, s("/a/"));
    add_cache_root(&mut roots, s("//a/."));
    assert_eq!(roots.len(), 1);
    add_cache_root(&mut roots, s("/a/.."));
    assert_eq!(roots.len(), 2);
    assert!(wants_sqlite_preopens("sqlitewasm") && !wants_sqlite_preopens("dns"));
}

#[test]
fn paths_are_equal_by_their_components() {
    for (a, b) in [
        ("/a/b", "/a//b/"),
        ("/a/./b", "/a/b/."),
        ("./a", ".//a"),
        ("/", "//"),
        ("", ""),
        ("a/..", "a/../"),
        (".", "./"),
    ] {
        assert!(paths_equal(a, b), "{a} {b}");
        assert_eq!(std::path::Path::new(a), std::path::Path::new(b));
    }
    for (a, b) in [("/a", "a"), ("./a", "a"), ("/a/..", "/"), ("/a", "/b"), ("", "."), ("a", "a/b")] {
        assert!(!paths_equal(a, b), "{a} {b}");
        assert_ne!(std::path::Path::new(a), std::path::Path::new(b));
    }
}

#[test]
fn query_imports_are_recognised() {
    let has = |names: &[&str]| any_query_import(&names.iter().map(|n| s(n)).collect());
    assert!(has(&["wasi:io/poll", "duckdb:extension/query"]));
    assert!(has(&["duckdb:extension/query@1.1.0"]));
    assert!(has(&["duckdb:extension/query"]));
    assert!(!has(&["duckdb:extension/config"]));
    assert!(!has(&["duckdb:extension/query-x@1.1.0"]));
    assert!(!has(&["other:extension/query"]));
    assert!(!has(&[]));
}

#[test]
fn config_answers_reach_the_extension() {
    assert!(matches!(
        core_config_error_to_neutral(Configerror::Invalidkey(s("k"))),
        ConfigError::InvalidKey(ref m) if m == "k"
    ));
    assert!(matches!(
        core_config_error_to_neutral(Configerror::Typemismatch(s("k"))),
        ConfigError::TypeMismatch(_)
    ));
    assert!(matches!(
        core_config_error_to_neutral(Configerror::Unavailable(s("k"))),
        ConfigError::Unavailable(_)
    ));
    assert!(matches!(
        core_config_error_to_neutral(Configerror::Internalconfig(s("k"))),
        ConfigError::InternalConfig(_)
    ));
    assert!(matches!(config_value(ConfigReply::Answered(Ok(Some(5i64)))), Ok(Some(5))));
    assert!(matches!(
        config_value::<bool>(ConfigReply::Trapped(s("t"))),
        Err(ConfigError::InternalConfig(ref m)) if m == "t"
    ));
    for (a, b) in [
        (LogLevel::Trace, Loglevel::Trace),
        (LogLevel::Debug, Loglevel::Debug),
        (LogLevel::Info, Loglevel::Info),
        (LogLevel::Warn, Loglevel::Warn),
        (LogLevel::Error, Loglevel::Error),
    ] {
        assert_eq!(neutral_loglevel_to_core(a), b);
    }
}

#[test]
fn texts_are_cut_and_joined() {
    assert_eq!(trim("\u{a0} x\t\n"), "x");
    assert_eq!(split_on("a,,b", ','), vec!["a", "", "b"]);
    assert_eq!(split_list(" a ,, b ", ','), vec!["a", "b"]);
    assert_eq!(join(&vec![s("a"), s("b")], ", "), "a, b");
    assert_eq!(replace_char("a'b'", '\'', "''"), "a''b''");
    assert!(text_before("a", "ab") && text_before("B", "a") && !text_before("a", "a"));
    assert_eq!(decimal_u128(u128::MAX), u128::MAX.to_string());
    assert_eq!(decimal_i128(i128::MIN), i128::MIN.to_string());
}

#[test]
fn a_later_binding_wins_and_keeps_its_place() {
    let mut m: NameMap<u32> = NameMap::new();
    m.insert_all(vec![(s("a"), 1), (s("b"), 2), (s("a"), 3)]);
    assert_eq!(m.len(), 2);
    assert_eq!(m.get("a"), Some(&3));
    assert_eq!(m.entry(0).0, "a");
    assert!(m.contains("b") && !m.contains("c"));
}
