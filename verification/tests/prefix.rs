use ducklink_host::prefix::{
    build_prefix_table_sql, epoch_stamp, format_collision_warning, prefix_table_sql,
    qualified_name, sanitize_name, sanitize_prefix, sql_lit, CollisionTracker, PrefixInfo,
    PrefixRegistry, PrefixRow, RetainedDef, RetainedDefs, Shape,
};
use ducklink_host::reg;

#[test]
fn sanitize_prefix_accepts_valid_identifiers() {
    assert_eq!(sanitize_prefix("jsonfns").as_deref(), Some("jsonfns"));
    assert_eq!(sanitize_prefix("_foo1").as_deref(), Some("_foo1"));
    assert_eq!(sanitize_prefix("ST_2"), Some("ST_2".to_string()));
    // invalid: starts with digit, contains hyphen / colon
    assert_eq!(sanitize_prefix("2foo"), None);
    assert_eq!(sanitize_prefix("iban-component"), None);
    assert_eq!(sanitize_prefix("foaf:name"), None);
    assert_eq!(sanitize_prefix(""), None);
}

#[test]
fn sanitize_name_coerces_to_identifier() {
    assert_eq!(sanitize_name("iban-component"), "iban_component");
    assert_eq!(sanitize_name("jsonfns"), "jsonfns");
    assert_eq!(sanitize_name("123x"), "_123x");
}

#[test]
fn a_made_name_is_a_valid_prefix() {
    for raw in ["", "9", "a b", "é-1", "ok_name"] {
        assert!(sanitize_prefix(&sanitize_name(raw)).is_some(), "{raw}");
    }
    assert_eq!(sanitize_name("é-1"), "__1");
}

#[test]
fn qualified_name_basic_and_skips() {
    assert_eq!(
        qualified_name("jsonfns", "json_valid").as_deref(),
        Some("jsonfns__json_valid")
    );
    // already-prefixed bare name -> skip to avoid double-prefixing
    assert_eq!(qualified_name("jsonfns", "jsonfns__json_valid"), None);
    // invalid prefix -> skip
    assert_eq!(qualified_name("bad-prefix", "x"), None);
}

#[test]
fn qualified_names_meet_only_across_an_underscore() {
    assert_ne!(qualified_name("a", "b"), qualified_name("a", "c"));
    assert_ne!(qualified_name("a", "b"), qualified_name("c", "b"));
    // The underscores of a prefix and of a name cannot be told apart.
    assert_eq!(qualified_name("a_", "b"), Some("a___b".to_string()));
    assert_eq!(qualified_name("a", "_b"), Some("a___b".to_string()));
}

#[test]
fn registry_fallback_when_missing() {
    let reg = PrefixRegistry::default();
    let info = reg.resolve("widget");
    assert!(info.is_fallback);
    assert_eq!(info.prefix, "widget");
    assert_eq!(info.expansion, "ducklink-internal://widget");
}

#[test]
fn registry_loaded_entry_wins() {
    let mut reg = PrefixRegistry::default();
    reg.declare("jsonfns", "jsonfns", "com.tegmentum.ducklink.json");
    let info = reg.resolve("jsonfns");
    assert!(!info.is_fallback);
    assert_eq!(info.prefix, "jsonfns");
    assert_eq!(info.expansion, "com.tegmentum.ducklink.json");
}

#[test]
fn registry_reads_an_index() {
    let text = r#"{"extensions":[
        {"name":"a","prefix":"first","expansion":"com.x.a"},
        {"name":"b","prefix":"b"},
        {"name":"c","prefix":"2c","expansion":"com.x.c"},
        {"name":"a","prefix":"second","expansion":"com.x.a2"}]}"#;
    let reg = PrefixRegistry::load_from_index(Some(text));
    assert_eq!(reg.resolve("a").prefix, "second");
    assert_eq!(reg.resolve("a").expansion, "com.x.a2");
    assert!(reg.resolve("b").is_fallback);
    // A declared prefix that is no identifier gives way to the extension's name.
    assert_eq!(reg.resolve("c").prefix, "c");
    assert_eq!(reg.resolve("c").expansion, "com.x.c");
    for bad in [None, Some(""), Some("not json"), Some("[]"), Some("{\"extensions\":3}")] {
        assert!(PrefixRegistry::load_from_index(bad).resolve("a").is_fallback);
    }
}

#[test]
fn fallback_is_warned_about_once() {
    let mut reg = PrefixRegistry::default();
    reg.declare("known", "known", "com.x.known");
    let warning = reg.take_fallback_warning("widget").expect("a warning");
    assert!(warning.contains("extension 'widget'"));
    assert!(warning.contains("ducklink-internal://widget"));
    assert!(reg.take_fallback_warning("widget").is_none());
    assert!(reg.take_fallback_warning("gadget").is_some());
}

#[test]
fn collision_tracker_no_collision_same_expansion() {
    let mut t = CollisionTracker::default();
    let info = PrefixInfo {
        prefix: "jsonfns".into(),
        expansion: "com.x.json".into(),
        is_fallback: false,
    };
    // Two registrations from the SAME expansion (e.g. two overloads of the
    // same component) are NOT a cross-component collision.
    let r1 = t.record("jsonfns", "com.x.json", &info, "json_type", Shape::Scalar, 1);
    assert!(!r1.is_collision);
    let r2 = t.record("jsonfns", "com.x.json", &info, "json_type", Shape::Scalar, 2);
    assert!(!r2.is_collision); // different arity anyway
    let r3 = t.record("jsonfns", "com.x.json", &info, "json_type", Shape::Scalar, 1);
    assert!(!r3.is_collision); // same expansion, same key -> not a collision
}

#[test]
fn shape_roundtrips_through_strings() {
    for s in [
        Shape::Scalar,
        Shape::Table,
        Shape::Aggregate,
        Shape::Collation,
        Shape::Pragma,
        Shape::Macro,
    ] {
        assert_eq!(Shape::from_str(s.as_str()), Some(s));
    }
    assert_eq!(Shape::from_str("cast"), None);
    assert_eq!(Shape::from_str("storage"), None);
}

fn scalar_reg(ext: &str, name: &str, n_args: usize) -> reg::ScalarReg {
    reg::ScalarReg {
        extension: ext.into(),
        name: name.into(),
        arguments: (0..n_args)
            .map(|_| reg::FuncArg {
                name: None,
                logical: reg::LogicalType::Text,
            })
            .collect(),
        returns: reg::LogicalType::Int64,
        callback_handle: 1,
        options: None,
    }
}

#[test]
fn retained_defs_default_owner_is_last_loaded() {
    let mut r = RetainedDefs::default();
    // a then b register the same (name, scalar, 0-arg) under distinct exps.
    r.insert("com.x.a", "a", "pin_probe", Shape::Scalar, 0, RetainedDef::Scalar(scalar_reg("a", "pin_probe", 0)));
    r.insert("com.x.b", "b", "pin_probe", Shape::Scalar, 0, RetainedDef::Scalar(scalar_reg("b", "pin_probe", 0)));
    // default (bare) owner = last loaded = b.
    assert_eq!(r.default_owner("pin_probe", Shape::Scalar, 0), Some("com.x.b"));
    // both specific defs are retrievable for the pin to resurrect.
    assert!(matches!(
        r.get("pin_probe", Shape::Scalar, 0, "com.x.a"),
        Some(RetainedDef::Scalar(_))
    ));
    assert!(r.get("pin_probe", Shape::Scalar, 0, "com.x.missing").is_none());
    assert_eq!(r.prefix_for("com.x.a"), Some("a"));
    assert_eq!(r.prefix_for("com.x.missing"), None);
}

#[test]
fn retained_defs_reload_moves_to_end() {
    let mut r = RetainedDefs::default();
    r.insert("com.x.a", "a", "f", Shape::Scalar, 0, RetainedDef::Scalar(scalar_reg("a", "f", 0)));
    r.insert("com.x.b", "b", "f", Shape::Scalar, 0, RetainedDef::Scalar(scalar_reg("b", "f", 0)));
    // re-loading a makes a the newest default owner (move-to-end).
    r.insert("com.x.a", "a", "f", Shape::Scalar, 0, RetainedDef::Scalar(scalar_reg("a", "f", 0)));
    assert_eq!(r.default_owner("f", Shape::Scalar, 0), Some("com.x.a"));
}

#[test]
fn retained_defs_shape_arity_keys_are_distinct() {
    let mut r = RetainedDefs::default();
    r.insert("com.x.a", "a", "f", Shape::Scalar, 0, RetainedDef::Scalar(scalar_reg("a", "f", 0)));
    r.insert("com.x.a", "a", "f", Shape::Collation, 0, RetainedDef::Collation("f".into(), "s".into(), false));
    r.insert("com.x.a", "a", "f", Shape::Scalar, 1, RetainedDef::Scalar(scalar_reg("a", "f", 1)));
    // Three distinct keys -> shapes_for_name reports all three.
    let mut shapes = r.shapes_for_name("f");
    shapes.sort_by_key(|(s, a, _)| (s.as_str(), *a));
    assert_eq!(shapes.len(), 3);
}

#[test]
fn collision_tracker_tracks_new_shapes() {
    // The new name-keyed shapes (collation/pragma/macro) collide the same way.
    let mut t = CollisionTracker::default();
    let a = PrefixInfo { prefix: "icufns".into(), expansion: "com.x.icu".into(), is_fallback: false };
    let b = PrefixInfo { prefix: "other".into(), expansion: "com.x.other".into(), is_fallback: false };
    let r1 = t.record("icufns", "com.x.icu", &a, "icu_en", Shape::Collation, 0);
    assert!(!r1.is_collision);
    let r2 = t.record("other", "com.x.other", &b, "icu_en", Shape::Collation, 0);
    assert!(r2.is_collision);
    assert_eq!(format_collision_warning(&r2).contains("collation/0-arg"), true);
}

#[test]
fn collision_tracker_detects_cross_expansion() {
    let mut t = CollisionTracker::default();
    let a = PrefixInfo {
        prefix: "luhn".into(),
        expansion: "com.x.luhn".into(),
        is_fallback: false,
    };
    let b = PrefixInfo {
        prefix: "luhngen".into(),
        expansion: "com.x.luhngen".into(),
        is_fallback: false,
    };
    let r1 = t.record("luhn", "com.x.luhn", &a, "luhn_check_digit", Shape::Scalar, 1);
    assert!(!r1.is_collision);
    let r2 = t.record("luhngen", "com.x.luhngen", &b, "luhn_check_digit", Shape::Scalar, 1);
    assert!(r2.is_collision);
    assert_eq!(r2.colliding_extensions, vec!["luhn", "luhngen"]);
    // bare owner is the last loaded (luhngen)
    let warning = format_collision_warning(&r2);
    assert!(warning.contains("luhn_check_digit"));
    assert!(warning.contains("luhngen__luhn_check_digit"));
    assert!(warning.contains("luhn__luhn_check_digit"));
    assert!(warning.contains("resolves to 'luhngen'"));
}

#[test]
fn a_registration_that_comes_again_owns_the_name() {
    let mut t = CollisionTracker::default();
    let a = PrefixInfo {
        prefix: "luhn".into(),
        expansion: "com.x.luhn".into(),
        is_fallback: false,
    };
    let b = PrefixInfo {
        prefix: "luhngen".into(),
        expansion: "com.x.luhngen".into(),
        is_fallback: false,
    };
    t.record("luhn", "com.x.luhn", &a, "f", Shape::Scalar, 1);
    t.record("luhngen", "com.x.luhngen", &b, "f", Shape::Scalar, 1);
    let r = t.record("luhn", "com.x.luhn", &a, "f", Shape::Scalar, 1);
    assert!(r.is_collision);
    assert_eq!(r.colliding_extensions, vec!["luhngen", "luhn"]);
    assert_eq!(r.qualified_forms, vec!["luhngen__f", "luhn__f"]);
    assert!(format_collision_warning(&r).contains("resolves to 'luhn'"));
}

fn row(prefix: &str, expansion: &str, function: &str) -> PrefixRow {
    PrefixRow {
        prefix: prefix.to_string(),
        expansion: expansion.to_string(),
        extension: "e".to_string(),
        function_name: function.to_string(),
        shape: "scalar",
        n_args: 2,
    }
}

#[test]
fn quotes_are_doubled_in_literals() {
    assert_eq!(sql_lit("it's"), "it''s");
    assert_eq!(sql_lit(""), "");
}

#[test]
fn prefix_table_lists_each_pair_once() {
    let rows = vec![row("b", "com.b", "f"), row("a", "com.a", "g"), row("b", "com.b", "h")];
    let sql = prefix_table_sql(&rows, 77);
    assert_eq!(sql.matches("'com.b'").count(), 3);
    assert!(sql.find("'com.a'").unwrap() < sql.find("'com.b'").unwrap());
    assert!(sql.contains("77"));
    assert!(sql.contains("'g'"));
}

#[test]
fn prefix_table_is_stamped_with_the_time() {
    let sql = build_prefix_table_sql(&vec![row("a", "com.a", "f")]);
    let earlier = prefix_table_sql(&vec![row("a", "com.a", "f")], 0);
    assert_ne!(sql, earlier);
    assert!(sql.contains("'com.a'"));
}

#[test]
fn stamp_is_zero_before_the_epoch() {
    assert_eq!(epoch_stamp(None), 0);
    assert_eq!(epoch_stamp(Some(12)), 12);
}
