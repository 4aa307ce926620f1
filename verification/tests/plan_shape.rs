use ducklink_host::plan_shape::{flat_node, flatten_plan_json, MAX_NODES};

#[test]
fn parses_well_formed_plan() {
    let json = r#"[{"id":0,"op":"LOGICAL_GET","parent":null,"table":"optme"},
                       {"id":1,"op":"LOGICAL_PROJECTION","parent":0}]"#;
    let nodes = flatten_plan_json(json).unwrap();
    assert_eq!(nodes.len(), 2);
    assert_eq!(nodes[0].1, "LOGICAL_GET");
    assert_eq!(nodes[0].2, None);
    assert_eq!(nodes[1].2, Some(0));
    assert!(nodes[0].3.contains("optme"));
}

#[test]
fn invalid_json_is_clean_error_not_panic() {
    assert!(flatten_plan_json("not json").is_err());
    assert!(flatten_plan_json("{").is_err());
    assert!(flatten_plan_json("").is_err());
}

#[test]
fn bad_plan_error_names_the_problem() {
    let err = flatten_plan_json("{").unwrap_err();
    assert!(err.starts_with("bad plan JSON: "), "{err}");
    assert!(err.len() > "bad plan JSON: ".len());
}

#[test]
fn non_array_and_missing_fields_degrade_to_empty() {
    // Valid JSON that is not the expected array shape -> empty node list, Ok.
    assert_eq!(flatten_plan_json("{}").unwrap().len(), 0);
    assert_eq!(flatten_plan_json("42").unwrap().len(), 0);
    // Array of objects missing fields -> nodes with defaults, no panic.
    let nodes = flatten_plan_json(r#"[{},{"op":123},{"parent":-5}]"#).unwrap();
    assert_eq!(nodes.len(), 3);
    assert_eq!(nodes[0].0, 0); // missing id -> 0
    assert_eq!(nodes[1].1, ""); // non-string op -> ""
    assert_eq!(nodes[2].2, None); // negative parent -> None
}

#[test]
fn huge_id_and_parent_do_not_panic() {
    let json = r#"[{"id":18446744073709551615,"op":"X","parent":9223372036854775807}]"#;
    let nodes = flatten_plan_json(json).unwrap();
    assert_eq!(nodes.len(), 1);
}

#[test]
fn numbers_are_cut_to_their_low_bits() {
    let json = r#"[{"id":18446744073709551615,"op":"X","parent":9223372036854775807},
                   {"id":4294967298,"parent":-1}, {"id":-7,"parent":1.5}]"#;
    let nodes = flatten_plan_json(json).unwrap();
    assert_eq!((nodes[0].0, nodes[0].2), (u32::MAX, Some(u32::MAX)));
    assert_eq!((nodes[1].0, nodes[1].2), (2, None));
    assert_eq!((nodes[2].0, nodes[2].2), (0, None));
}

#[test]
fn params_are_the_compact_text_of_the_node() {
    let nodes = flatten_plan_json("[ { \"id\" : 3 } ]").unwrap();
    assert_eq!(nodes[0].3, "{\"id\":3}");
}

#[test]
fn node_count_is_bounded() {
    let mut json = String::from("[");
    for i in 0..MAX_NODES + 5 {
        if i > 0 {
            json.push(',');
        }
        json.push_str("{}");
    }
    json.push(']');
    assert_eq!(flatten_plan_json(&json).unwrap().len(), MAX_NODES);
}

#[test]
fn node_defaults() {
    let n = flat_node(None, None, Some(-1), String::from("{}"));
    assert_eq!(n, (0, String::new(), None, String::from("{}")));
}
