use ducklink_host::columnar::{
    cast_inputs, core_colvec_value_at, core_colvecs_to_ext_rows, ext_values_to_core_colvec,
    is_covered, Column, Colvec, NestedColumn,
};
use ducklink_host::convert::{
    convert_cli_capability, convert_cli_columndescriptor_to_core, convert_cli_duckvalue,
    convert_core_capabilitykind, convert_core_columndef_to_extension, convert_core_duckerror,
    convert_core_duckerror_to_extension, convert_core_duckvalue,
    convert_core_duckvalue_to_extension, convert_core_extension_info, convert_core_query_result,
    convert_extension_columndef_to_core, convert_extension_duckerror_to_core,
    convert_extension_duckvalue_to_core, convert_extension_resultset_to_core,
    describe_cli_capability, summarize_cli_capabilities,
};
use ducklink_host::loader::{neutral_funcflags_to_core, Funcflag, Funcflags};
use ducklink_host::model::{
    Complexvalue, Decimalvalue, Float32value, Float64value, Hugeintvalue, Intervalvalue,
    Uhugeintvalue, Uuidvalue,
};
use ducklink_host::reg::{
    self, neutral_logicaltype_to_core, neutral_logicaltype_to_type_expr,
    neutral_reg_logicaltype_to_core_types,
};
use ducklink_host::render::{
    describe_core_duckvalue, extract_rows_affected, format_decimal, format_hugeint,
    format_uhugeint, format_uuid, query_result_to_nested_exec, spi_render_rows, spi_value_text,
};
use ducklink_host::sqltype::{
    literal_to_extension_duckvalue, parse_sql_type_to_logical, sql_type_to_extension_logical,
    ValueLiteral,
};
use ducklink_host::{cli_types, core_types, extension_types};

fn f64v(x: f64) -> Float64value {
    Float64value { bits: x.to_bits(), text: format!("{x}"), literal: format!("{x:?}") }
}

fn f32v(x: f32) -> Float32value {
    Float32value { bits: x.to_bits(), text: format!("{x}"), literal: format!("{x:?}") }
}

/// One of each declared type.
fn all_neutral_logicaltypes() -> Vec<reg::LogicalType> {
    vec![
        reg::LogicalType::Boolean,
        reg::LogicalType::Int64,
        reg::LogicalType::Uint64,
        reg::LogicalType::Float64,
        reg::LogicalType::Text,
        reg::LogicalType::Blob,
        reg::LogicalType::Int32,
        reg::LogicalType::Timestamp,
        reg::LogicalType::Int8,
        reg::LogicalType::Int16,
        reg::LogicalType::Uint8,
        reg::LogicalType::Uint16,
        reg::LogicalType::Uint32,
        reg::LogicalType::Float32,
        reg::LogicalType::Date,
        reg::LogicalType::Time,
        reg::LogicalType::Timestamptz,
        reg::LogicalType::Decimal { width: 18, scale: 3 },
        reg::LogicalType::Interval,
        reg::LogicalType::Uuid,
        reg::LogicalType::Hugeint,
        reg::LogicalType::UHugeint,
        reg::LogicalType::List(Box::new(reg::LogicalType::Int32)),
        reg::LogicalType::Struct(vec![("a".into(), reg::LogicalType::Int32)]),
        reg::LogicalType::MapOf(Box::new(reg::LogicalType::Text), Box::new(reg::LogicalType::Int32)),
        reg::LogicalType::Array(4, Box::new(reg::LogicalType::Int32)),
        reg::LogicalType::Complex("LIST(INTEGER)".to_string()),
    ]
}

#[test]
fn neutral_logicaltype_to_core_covers_every_arm() {
    // Every arm converts without panicking; the Complex arm carries its
    // owned type-expr through to the core variant.
    for ty in all_neutral_logicaltypes() {
        let is_complex = matches!(ty, reg::LogicalType::Complex(_));
        let core = neutral_logicaltype_to_core(ty);
        if is_complex {
            assert!(matches!(
                core,
                core_types::Logicaltype::Complex(ref e) if e == "LIST(INTEGER)"
            ));
        }
    }
}

#[test]
fn nested_types_travel_as_expressions() {
    let of = |ty: reg::LogicalType| match neutral_logicaltype_to_core(ty) {
        core_types::Logicaltype::Complex(e) => e,
        other => format!("{other:?}"),
    };
    let int = || Box::new(reg::LogicalType::Int32);
    assert_eq!(of(reg::LogicalType::List(int())), "LIST(INTEGER)");
    assert_eq!(
        of(reg::LogicalType::List(Box::new(reg::LogicalType::List(int())))),
        "LIST(INTEGER[])"
    );
    assert_eq!(
        of(reg::LogicalType::Struct(vec![
            ("a".into(), reg::LogicalType::Int32),
            ("b".into(), reg::LogicalType::Decimal { width: 9, scale: 2 }),
        ])),
        "STRUCT(a INTEGER, b DECIMAL(9, 2))"
    );
    assert_eq!(
        of(reg::LogicalType::MapOf(Box::new(reg::LogicalType::Text), int())),
        "MAP(VARCHAR, INTEGER)"
    );
    assert_eq!(of(reg::LogicalType::Array(4, int())), "INTEGER[4]");
    assert_eq!(neutral_logicaltype_to_type_expr(&reg::LogicalType::UHugeint), "UHUGEINT");
}

/// Construct a representative core duckvalue per arm (rich set included).
fn all_core_duckvalues() -> Vec<core_types::Duckvalue> {
    vec![
        core_types::Duckvalue::Null,
        core_types::Duckvalue::Boolean(true),
        core_types::Duckvalue::Int64(-5),
        core_types::Duckvalue::Uint64(5),
        core_types::Duckvalue::Float64(f64v(1.25)),
        core_types::Duckvalue::Text("t".into()),
        core_types::Duckvalue::Blob(vec![9, 8, 7]),
        core_types::Duckvalue::Int32(-3),
        core_types::Duckvalue::Timestamp(11),
        core_types::Duckvalue::Int8(-1),
        core_types::Duckvalue::Int16(-2),
        core_types::Duckvalue::Uint8(1),
        core_types::Duckvalue::Uint16(2),
        core_types::Duckvalue::Uint32(3),
        core_types::Duckvalue::Float32(f32v(0.5)),
        core_types::Duckvalue::Date(100),
        core_types::Duckvalue::Time(200),
        core_types::Duckvalue::Timestamptz(300),
        core_types::Duckvalue::Decimal(Decimalvalue { lower: 77, upper: 0, width: 6, scale: 3 }),
        core_types::Duckvalue::Interval(Intervalvalue { months: 1, days: 2, micros: 3 }),
        core_types::Duckvalue::Uuid(Uuidvalue { hi: 10, lo: 20 }),
        core_types::Duckvalue::Complex(Complexvalue {
            type_expr: "STRUCT(a INT)".into(),
            json: "{\"a\":1}".into(),
        }),
    ]
}

#[test]
fn core_cli_duckvalue_round_trips_every_arm() {
    // core -> cli -> core is lossless for every arm including the rich ones.
    for v in all_core_duckvalues() {
        let before = format!("{v:?}");
        let cli = convert_core_duckvalue(v);
        let back = convert_cli_duckvalue(cli);
        assert_eq!(before, format!("{back:?}"));
    }
}

#[test]
fn core_extension_duckvalue_round_trips_every_arm() {
    // core -> extension -> core is lossless for every arm.
    for v in all_core_duckvalues() {
        let before = format!("{v:?}");
        let ext = convert_core_duckvalue_to_extension(v);
        let back = convert_extension_duckvalue_to_core(ext);
        assert_eq!(before, format!("{back:?}"));
    }
}

#[test]
fn hugeints_of_extensions_reach_the_core_as_text() {
    let v = extension_types::Duckvalue::Hugeint(Hugeintvalue { lower: 7, upper: -1 });
    match convert_extension_duckvalue_to_core(v) {
        core_types::Duckvalue::Complex(c) => {
            assert_eq!(c.type_expr, "HUGEINT");
            assert_eq!(c.json, "-18446744073709551609");
        }
        other => panic!("{other:?}"),
    }
    let v = extension_types::Duckvalue::Uhugeint(Uhugeintvalue { lower: 1, upper: 1 });
    match convert_extension_duckvalue_to_core(v) {
        core_types::Duckvalue::Complex(c) => {
            assert_eq!(c.type_expr, "UHUGEINT");
            assert_eq!(c.json, "18446744073709551617");
        }
        other => panic!("{other:?}"),
    }
}

#[test]
fn neutral_funcflags_to_core_maps_each_bit() {
    let none = neutral_funcflags_to_core(reg::FuncFlags::default());
    assert_eq!(none, Funcflags::empty());
    let all = neutral_funcflags_to_core(reg::FuncFlags {
        deterministic: true,
        commutative: true,
        stateless: true,
        side_effecting: true,
        deprecated: true,
    });
    assert!(all.contains(Funcflag::Deterministic));
    assert!(all.contains(Funcflag::Commutative));
    assert!(all.contains(Funcflag::Stateless));
    assert!(all.contains(Funcflag::Sideeffecting));
    assert!(all.contains(Funcflag::Deprecated));
}

#[test]
fn describe_core_duckvalue_is_total_and_nonempty() {
    // The dispatch-path describe helper must handle every arm (a component
    // returning any variant) without panicking and yield a label.
    for v in all_core_duckvalues() {
        assert!(!describe_core_duckvalue(&v).is_empty());
    }
}

#[test]
fn text_is_described_as_it_debugs() {
    let v = core_types::Duckvalue::Text("a\"b\n".into());
    let quoted = format!("{:?}", "a\"b\n");
    assert!(describe_core_duckvalue(&v).contains(&quoted), "{}", describe_core_duckvalue(&v));
}

#[test]
fn numbers_wider_than_a_word() {
    assert_eq!(format_hugeint(0, 0), "0");
    assert_eq!(format_hugeint(u64::MAX, -1), "-1");
    assert_eq!(format_hugeint(0, i64::MIN), "-170141183460469231731687303715884105728");
    assert_eq!(format_uhugeint(u64::MAX, u64::MAX), "340282366920938463463374607431768211455");
    assert_eq!(format_decimal(12345, 0, 9, 2), "123.45");
    assert_eq!(format_decimal(5, 0, 9, 3), "0.005");
    assert_eq!(format_decimal(5, 0, 9, 0), "5");
    assert_eq!(format_decimal((-12345i128) as u64, u64::MAX, 9, 2), "-123.45");
    assert_eq!(
        format_uuid(0x0123_4567_89ab_cdef, 0x0011_2233_4455_6677),
        "01234567-89ab-cdef-0011-223344556677"
    );
}

#[test]
fn cells_show_as_text() {
    assert_eq!(spi_value_text(&core_types::Duckvalue::Null), "");
    assert_eq!(spi_value_text(&core_types::Duckvalue::Boolean(false)), "false");
    assert_eq!(spi_value_text(&core_types::Duckvalue::Int8(-128)), "-128");
    assert_eq!(spi_value_text(&core_types::Duckvalue::Uint64(u64::MAX)), "18446744073709551615");
    assert_eq!(spi_value_text(&core_types::Duckvalue::Float64(f64v(1.5))), "1.5");
    assert_eq!(spi_value_text(&core_types::Duckvalue::Text("x".into())), "x");
}

fn result(columns: Vec<(&str, core_types::Logicaltype)>, rows: Vec<Vec<core_types::Duckvalue>>) -> core_types::QueryResult {
    core_types::QueryResult {
        columns: columns
            .into_iter()
            .map(|(n, t)| core_types::Columndef { name: n.to_string(), logical: t })
            .collect(),
        rows,
    }
}

#[test]
fn a_count_says_how_many_rows_changed() {
    let count = |v| result(vec![("Count", core_types::Logicaltype::Int64)], vec![vec![v]]);
    assert_eq!(extract_rows_affected(&count(core_types::Duckvalue::Int64(3))), Some(3));
    assert_eq!(extract_rows_affected(&count(core_types::Duckvalue::Int64(-3))), Some(0));
    assert_eq!(extract_rows_affected(&count(core_types::Duckvalue::Uint32(9))), Some(9));
    assert_eq!(extract_rows_affected(&count(core_types::Duckvalue::Text("3".into()))), None);
    assert_eq!(extract_rows_affected(&count(core_types::Duckvalue::Uint8(4))), Some(4));
    let two = result(
        vec![("Count", core_types::Logicaltype::Int64)],
        vec![vec![core_types::Duckvalue::Int64(3)], vec![core_types::Duckvalue::Int64(4)]],
    );
    assert_eq!(extract_rows_affected(&two), None);
    let other = result(
        vec![("n", core_types::Logicaltype::Int64)],
        vec![vec![core_types::Duckvalue::Int64(3)]],
    );
    assert_eq!(extract_rows_affected(&other), None);
    let nested = query_result_to_nested_exec(&count(core_types::Duckvalue::Int64(3)));
    assert_eq!(nested.rows_affected, Some(3));
    assert_eq!(nested.rows, Some(vec![vec!["3".to_string()]]));
}

#[test]
fn rows_render_as_text() {
    let qr = result(
        vec![("a", core_types::Logicaltype::Int64), ("b", core_types::Logicaltype::Text)],
        vec![
            vec![core_types::Duckvalue::Int64(1), core_types::Duckvalue::Text("x".into())],
            vec![core_types::Duckvalue::Null, core_types::Duckvalue::Text("y".into())],
        ],
    );
    let text = spi_render_rows(&qr);
    assert!(text.contains('1') && text.contains('x') && text.contains('y'), "{text}");
    let cli = convert_core_query_result(qr);
    assert_eq!(cli.columns.len(), 2);
    assert_eq!(cli.columns[1].name, "b");
    assert!(matches!(cli.rows[1][0], cli_types::Duckvalue::Null));
}

#[test]
fn errors_keep_their_kind_and_message() {
    let e = convert_core_duckerror(core_types::Duckerror::Io("disk".into()));
    assert!(matches!(e, cli_types::Duckerror::Io(ref m) if m == "disk"));
}

#[test]
fn capabilities_convert_back() {
    let kinds = vec![
        cli_types::Capabilitykind::Scalar,
        cli_types::Capabilitykind::Table,
        cli_types::Capabilitykind::Aggregate,
        cli_types::Capabilitykind::Pragma,
        cli_types::Capabilitykind::Macro,
        cli_types::Capabilitykind::Catalog,
        cli_types::Capabilitykind::FileFormat,
    ];
    for k in &kinds {
        let back = convert_core_capabilitykind(convert_cli_capability(*k));
        assert_eq!(describe_cli_capability(back), describe_cli_capability(*k));
    }
    assert!(summarize_cli_capabilities(&kinds).contains("file-format"));
}

#[test]
fn columns_read_back_what_was_put_in() {
    let vals = vec![
        extension_types::Duckvalue::Int64(4),
        extension_types::Duckvalue::Null,
        extension_types::Duckvalue::Int64(-4),
    ];
    let c = ext_values_to_core_colvec(vals);
    assert_eq!(c.rows, 3);
    assert!(is_covered(&c, 3));
    assert!(matches!(core_colvec_value_at(&c, 0), core_types::Duckvalue::Int64(4)));
    assert!(matches!(core_colvec_value_at(&c, 1), core_types::Duckvalue::Null));
    assert!(matches!(core_colvec_value_at(&c, 2), core_types::Duckvalue::Int64(-4)));
    let inputs = cast_inputs(&c);
    assert_eq!(inputs.len(), 3);
    assert!(matches!(inputs[1], extension_types::Duckvalue::Null));
    let rows = core_colvecs_to_ext_rows(&vec![c]);
    assert_eq!(rows.len(), 3);
    assert!(matches!(rows[2][0], extension_types::Duckvalue::Int64(-4)));
}

#[test]
fn validity_is_one_bit_per_row() {
    let c = Colvec { data: Column::Int32(vec![1, 2, 3]), validity: vec![0b101], rows: 3 };
    assert!(matches!(core_colvec_value_at(&c, 0), core_types::Duckvalue::Int32(1)));
    assert!(matches!(core_colvec_value_at(&c, 1), core_types::Duckvalue::Null));
    assert!(matches!(core_colvec_value_at(&c, 2), core_types::Duckvalue::Int32(3)));
    // An empty bitmap, and a row behind its end, mean that the value is there.
    let c = Colvec { data: Column::Int32(vec![7; 9]), validity: vec![0], rows: 9 };
    assert!(matches!(core_colvec_value_at(&c, 7), core_types::Duckvalue::Null));
    assert!(matches!(core_colvec_value_at(&c, 8), core_types::Duckvalue::Int32(7)));
    // Too few cells.
    let c = Colvec { data: Column::Int32(vec![1]), validity: vec![], rows: 2 };
    assert!(!is_covered(&c, 2));
    let nested = Colvec {
        data: Column::ListCol(NestedColumn { encoded: vec![] }),
        validity: vec![],
        rows: 2,
    };
    assert!(is_covered(&nested, 2));
}

#[test]
fn sql_types_are_recognised() {
    let of = |s: &str| format!("{:?}", sql_type_to_extension_logical(s).unwrap());
    assert_eq!(of("INTEGER"), "Int32");
    assert_eq!(of(" bigint "), "Int64");
    assert_eq!(of("VARCHAR(255)"), "Text");
    assert_eq!(of("double precision"), "Float64");
    assert_eq!(of("DOUBLE \t  Precision"), "Float64");
    assert_eq!(of(" varchar(20) "), "Text");
    assert_eq!(of("Timestamp(3) with  time zone"), "Timestamptz");
    assert_eq!(of("decimal( 10 ,2 )"), of("DECIMAL(10,2)"));
    assert!(sql_type_to_extension_logical(" \n").is_err());
    assert!(of("DECIMAL(9, 2)").contains("width: 9"));
    assert!(of("DECIMAL").contains("width: 18"));
    assert!(sql_type_to_extension_logical("GEOMETRY").is_err());
    assert!(sql_type_to_extension_logical("DECIMAL(x)").is_err());
    assert!(sql_type_to_extension_logical("DECIMAL(1,2,3)").is_err());
    assert_eq!(format!("{:?}", parse_sql_type_to_logical("BIGINT")), "Int64");
}

#[test]
fn literals_become_values() {
    assert!(matches!(
        literal_to_extension_duckvalue(ValueLiteral::Integer(5)),
        Ok(extension_types::Duckvalue::Int64(5))
    ));
    assert!(matches!(
        literal_to_extension_duckvalue(ValueLiteral::Null),
        Ok(extension_types::Duckvalue::Null)
    ));
    assert!(literal_to_extension_duckvalue(ValueLiteral::Raw("now()".into())).is_err());
}

#[test]
fn columns_keep_their_name_and_type() {
    let col = core_types::Columndef {
        name: String::from("n"),
        logical: core_types::Logicaltype::Int64,
    };
    let there = convert_core_columndef_to_extension(col);
    assert_eq!(there.name, "n");
    assert!(matches!(there.logical, extension_types::Logicaltype::Int64));
    let back = convert_extension_columndef_to_core(there);
    assert_eq!(back.name, "n");
    assert!(matches!(back.logical, core_types::Logicaltype::Int64));
    let described = convert_cli_columndescriptor_to_core(cli_types::ColumnDescriptor {
        name: String::from("d"),
        ty: cli_types::Logicaltype::Text,
    });
    assert_eq!(described.name, "d");
    assert!(matches!(described.ty, core_types::Logicaltype::Text));
}

#[test]
fn errors_cross_both_ways() {
    let there = convert_core_duckerror_to_extension(core_types::Duckerror::Io(String::from("gone")));
    assert!(matches!(&there, extension_types::Duckerror::Io(m) if m == "gone"));
    let back = convert_extension_duckerror_to_core(there);
    assert!(matches!(&back, core_types::Duckerror::Io(m) if m == "gone"));
    let state = extension_types::Duckerror::Invalidstate(String::from("s"));
    assert!(matches!(
        convert_extension_duckerror_to_core(state),
        core_types::Duckerror::Invalidstate(m) if m == "s"
    ));
}

#[test]
fn rows_of_an_extension_keep_their_shape() {
    let rows = vec![
        vec![extension_types::Duckvalue::Int64(1), extension_types::Duckvalue::Null],
        vec![],
    ];
    let out = convert_extension_resultset_to_core(rows);
    assert_eq!(out.len(), 2);
    assert!(matches!(out[0][0], core_types::Duckvalue::Int64(1)));
    assert!(matches!(out[0][1], core_types::Duckvalue::Null));
    assert!(out[1].is_empty());
}

#[test]
fn extensions_are_listed_with_their_capabilities() {
    let info = convert_core_extension_info(core_types::ExtensionInfo {
        name: String::from("e"),
        capabilities: vec![core_types::Capabilitykind::Table, core_types::Capabilitykind::Scalar],
    });
    assert_eq!(info.name, "e");
    assert_eq!(info.capabilities.len(), 2);
    assert!(matches!(info.capabilities[0], cli_types::Capabilitykind::Table));
    assert!(matches!(info.capabilities[1], cli_types::Capabilitykind::Scalar));
}

#[test]
fn declared_types_have_one_meaning() {
    assert!(matches!(
        neutral_reg_logicaltype_to_core_types(reg::LogicalType::Int64),
        core_types::Logicaltype::Int64
    ));
}
