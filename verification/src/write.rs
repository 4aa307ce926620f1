//! Writes to tables of attached catalogs. A statement is checked, its rows are
//! looked up where it names no rows itself, the change is handed to the extension,
//! and the file behind the catalog is brought up to date.
use crate::attach::{
    cli_extension_duckerror, empty_query_result, extension_duckerror_message, no_rows,
    AttachedForeignCatalog,
};
use crate::cli_types;
use crate::convert::{convert_core_duckerror, convert_core_duckvalue_to_extension};
use crate::core_types;
use crate::extension_types;
use crate::model::{message_of, rows_of, views, ColumnModel, ErrorModel, TypeModel, ValueModel};
use crate::names::NameMap;
use crate::render::{bool_text, debug_text, quote_debug, render_bool};
use crate::sqltype::{
    law_literal_is_its_value, literal_to_extension_duckvalue, literal_value, sql_type_of,
    sql_type_to_extension_logical, ValueLiteral,
};
use crate::storage::{copy_target, Target};
use crate::text::{
    ascii_lowercase, contains, decimal_i128, decimal_of, decimal_u128, has_infix, join, join_of,
    law_infix, lower, same_text_ignoring_case,
};
use vstd::prelude::*;

verus! {

/// A column of a `CREATE TABLE`: its name and its type as written.
#[derive(Debug)]
pub struct ColumnSpec {
    pub name: String,
    pub ty_name: String,
}

/// A parsed write to `<alias>.<table>`.
#[derive(Debug)]
pub enum WriteRoute {
    /// The statement has a form that is not handled.
    Unsupported(String),
    Insert { alias: String, table: String, columns: Vec<String>, rows: Vec<Vec<ValueLiteral>> },
    Update {
        alias: String,
        table: String,
        assignments: Vec<(String, ValueLiteral)>,
        where_clause: Option<String>,
    },
    CreateTable { alias: String, table: String, definitions: Vec<ColumnSpec>, if_not_exists: bool },
    Delete { alias: String, table: String, where_clause: Option<String> },
}

/// What the answer that is awaited will be used for.
#[derive(Debug)]
pub enum WriteState {
    /// The columns of the table to update.
    UpdateColumns {
        alias: String,
        table: String,
        target: Target,
        assignments: Vec<(String, ValueLiteral)>,
        where_clause: Option<String>,
    },
    /// The rows to update.
    UpdateRows {
        alias: String,
        table: String,
        target: Target,
        rowid: usize,
        assigned: Vec<(usize, extension_types::Duckvalue)>,
    },
    /// The columns of the table to delete from.
    DeleteColumns { alias: String, table: String, target: Target, where_clause: Option<String> },
    /// The rows to delete.
    DeleteRows { alias: String, table: String, target: Target, rowid: usize },
    /// The tables that are already there.
    CreateProbe { alias: String, table: String, target: Target, columns: Vec<ColumnSpec> },
    /// The outcome of creating a table.
    Creating { alias: String, target: Target, if_not_exists: bool },
    /// The outcome of another change.
    Storing { alias: String, target: Target },
    /// The bytes of the changed catalog.
    Serializing { path: String },
    /// The outcome of writing the file.
    Writing { path: String },
    Finished,
}

/// The answer to a query of the core.
#[derive(Debug)]
pub enum ScanReply {
    Rows(core_types::QueryResult),
    Failed(core_types::Duckerror),
    Trapped(String),
}

#[derive(Debug)]
pub enum WriteEvent {
    Columns(Result<Vec<extension_types::Columndef>, extension_types::Duckerror>),
    Tables(Result<Vec<String>, extension_types::Duckerror>),
    Scanned(ScanReply),
    Stored(Result<u64, extension_types::Duckerror>),
    Serialized(Result<Vec<u8>, extension_types::Duckerror>),
    Written(Result<(), String>),
}

#[derive(Debug)]
pub enum WriteAction {
    TableColumns { target: Target, table: String },
    ListTables { target: Target },
    Scan { sql: String },
    Insert { target: Target, table: String, rows: Vec<Vec<extension_types::Duckvalue>> },
    Update {
        target: Target,
        table: String,
        rowids: Vec<i64>,
        rows: Vec<Vec<extension_types::Duckvalue>>,
    },
    Delete { target: Target, table: String, rowids: Vec<i64> },
    Create { target: Target, table: String, columns: Vec<extension_types::Columndef> },
    Serialize { target: Target },
    WriteFile { path: String, bytes: Vec<u8> },
    Finish(Result<cli_types::QueryResult, cli_types::Duckerror>),
    /// The event does not belong to the state; nothing is to be done.
    Ignore,
}

// ---------------------------------------------------------------------------
// Messages
// ---------------------------------------------------------------------------

pub open spec fn unsupported_text(reason: Seq<char>) -> Seq<char> {
    "Operation not supported on @5 attached tables: "@ + reason
        + ". Use the native duckdb build if this pattern is required."@
}

fn unsupported(reason: &str) -> (r: cli_types::Duckerror)
    ensures
        r@ == ErrorModel::Unsupported(unsupported_text(reason@)),
{
    let mut m = "Operation not supported on @5 attached tables: ".to_owned();
    m.append(reason);
    m.append(". Use the native duckdb build if this pattern is required.");
    cli_types::Duckerror::Unsupported(m)
}

/// An alias that was attached for reading only takes no write.
pub open spec fn read_only_alias(alias: Seq<char>) -> ErrorModel {
    ErrorModel::Unsupported(unsupported_text(alias + " is attached READ_ONLY"@))
}

pub open spec fn alias_gone(alias: Seq<char>) -> ErrorModel {
    ErrorModel::Internal("alias "@ + alias + " disappeared before dispatch"@)
}

fn alias_gone_error(alias: &str) -> (r: cli_types::Duckerror)
    ensures
        r@ == alias_gone(alias@),
{
    let mut m = "alias ".to_owned();
    m.append(alias);
    m.append(" disappeared before dispatch");
    cli_types::Duckerror::Internal(m)
}

/// Where the tables of an attached catalog are.
pub open spec fn target_of(cat: AttachedForeignCatalog) -> Target {
    Target {
        extension: cat.extension,
        handle: cat.callback_handle,
        catalog: cat.catalog_handle,
    }
}

/// Where a write to an alias goes: to the extension and the handle that the alias was
/// attached through. An alias that is gone, or that is attached for reading only, takes
/// none.
pub open spec fn write_target(
    alias: Seq<char>,
    attached: Map<Seq<char>, AttachedForeignCatalog>,
) -> Result<Target, ErrorModel> {
    if !attached.contains_key(alias) {
        Err(alias_gone(alias))
    } else if attached[alias].read_only {
        Err(read_only_alias(alias))
    } else {
        Ok(target_of(attached[alias]))
    }
}

pub fn at5_lookup_write_target(alias: &str, attached: &NameMap<AttachedForeignCatalog>) -> (r: Result<
    Target,
    cli_types::Duckerror,
>)
    ensures
        match r {
            Ok(target) => write_target(alias@, attached@) == Ok::<Target, ErrorModel>(target),
            Err(e) => write_target(alias@, attached@) == Err::<Target, ErrorModel>(e@),
        },
{
    match attached.get(alias) {
        None => Err(alias_gone_error(alias)),
        Some(cat) => {
            if cat.read_only {
                let mut reason = alias.to_owned();
                reason.append(" is attached READ_ONLY");
                return Err(unsupported(reason.as_str()));
            }
            Ok(
                Target {
                    extension: cat.extension.clone(),
                    handle: cat.callback_handle,
                    catalog: cat.catalog_handle,
                },
            )
        },
    }
}

/// `<alias>.<table>`
pub open spec fn dotted(alias: Seq<char>, table: Seq<char>) -> Seq<char> {
    alias + "."@ + table
}

fn dotted_name(alias: &str, table: &str) -> (r: String)
    ensures
        r@ == dotted(alias@, table@),
{
    let mut out = alias.to_owned();
    out.append(".");
    out.append(table);
    out
}

fn render_bytes(b: &Vec<u8>) -> (r: String)
    ensures
        r@ == join_of(b@.map_values(|x: u8| decimal_of(x as int)), ", "@),
{
    let mut parts: Vec<String> = Vec::new();
    let mut i: usize = 0;
    while i < b.len()
        invariant
            i <= b@.len(),
            parts@.len() == i,
            forall|j: int| 0 <= j < i ==> (#[trigger] parts@[j])@ == decimal_of(b@[j] as int),
        decreases b@.len() - i,
    {
        parts.push(decimal_u128(b[i] as u128));
        i += 1;
    }
    assert(views(parts@) =~= b@.map_values(|x: u8| decimal_of(x as int)));
    join(&parts, ", ")
}

/// The structural rendering of a value: its arm and what it holds.
pub open spec fn arm_text(v: ValueModel) -> Seq<char> {
    match v {
        ValueModel::Null => "Duckvalue::Null"@,
        ValueModel::Boolean(b) => "Duckvalue::Boolean("@ + bool_text(b) + ")"@,
        ValueModel::Float64(f) => "Duckvalue::Float64("@ + f.literal + ")"@,
        ValueModel::Float32(f) => "Duckvalue::Float32("@ + f.literal + ")"@,
        ValueModel::Text(s) => "Duckvalue::Text("@ + debug_text(s) + ")"@,
        ValueModel::Blob(b) => "Duckvalue::Blob(["@ + join_of(
            b.map_values(|x: u8| decimal_of(x as int)),
            ", "@,
        ) + "])"@,
        ValueModel::Timestamp(n) => "Duckvalue::Timestamp("@ + decimal_of(n as int) + ")"@,
        ValueModel::Date(n) => "Duckvalue::Date("@ + decimal_of(n as int) + ")"@,
        ValueModel::Time(n) => "Duckvalue::Time("@ + decimal_of(n as int) + ")"@,
        ValueModel::Timestamptz(n) => "Duckvalue::Timestamptz("@ + decimal_of(n as int) + ")"@,
        ValueModel::Int64(n) => "Duckvalue::Int64("@ + decimal_of(n as int) + ")"@,
        ValueModel::Uint64(n) => "Duckvalue::Uint64("@ + decimal_of(n as int) + ")"@,
        ValueModel::Int32(n) => "Duckvalue::Int32("@ + decimal_of(n as int) + ")"@,
        ValueModel::Int16(n) => "Duckvalue::Int16("@ + decimal_of(n as int) + ")"@,
        ValueModel::Int8(n) => "Duckvalue::Int8("@ + decimal_of(n as int) + ")"@,
        ValueModel::Uint32(n) => "Duckvalue::Uint32("@ + decimal_of(n as int) + ")"@,
        ValueModel::Uint16(n) => "Duckvalue::Uint16("@ + decimal_of(n as int) + ")"@,
        ValueModel::Uint8(n) => "Duckvalue::Uint8("@ + decimal_of(n as int) + ")"@,
        ValueModel::Decimal(d) => "Duckvalue::Decimal(Decimalvalue { lower: "@ + decimal_of(
            d.lower as int,
        ) + ", upper: "@ + decimal_of(d.upper as int) + ", width: "@ + decimal_of(d.width as int)
            + ", scale: "@ + decimal_of(d.scale as int) + " })"@,
        ValueModel::Interval(iv) => "Duckvalue::Interval(Intervalvalue { months: "@ + decimal_of(
            iv.months as int,
        ) + ", days: "@ + decimal_of(iv.days as int) + ", micros: "@ + decimal_of(iv.micros as int)
            + " })"@,
        ValueModel::Uuid(u) => "Duckvalue::Uuid(Uuidvalue { hi: "@ + decimal_of(u.hi as int) + ", lo: "@
            + decimal_of(u.lo as int) + " })"@,
        ValueModel::Hugeint(h) => "Duckvalue::Hugeint(Hugeintvalue { lower: "@ + decimal_of(
            h.lower as int,
        ) + ", upper: "@ + decimal_of(h.upper as int) + " })"@,
        ValueModel::Uhugeint(h) => "Duckvalue::Uhugeint(Uhugeintvalue { lower: "@ + decimal_of(
            h.lower as int,
        ) + ", upper: "@ + decimal_of(h.upper as int) + " })"@,
        ValueModel::Complex(c) => "Duckvalue::Complex(Complexvalue { type_expr: "@ + debug_text(
            c.type_expr,
        ) + ", json: "@ + debug_text(c.json) + " })"@,
    }
}

fn render_arm(v: &core_types::Duckvalue) -> (r: String)
    ensures
        r@ == arm_text(v@),
{
    match v {
        core_types::Duckvalue::Null => "Duckvalue::Null".to_owned(),
        core_types::Duckvalue::Boolean(b) => {
            let mut out = "Duckvalue::Boolean(".to_owned();
            out.append(render_bool(*b).as_str());
            out.append(")");
            out
        },
        core_types::Duckvalue::Float64(f) => {
            let mut out = "Duckvalue::Float64(".to_owned();
            out.append(f.literal.as_str());
            out.append(")");
            out
        },
        core_types::Duckvalue::Float32(f) => {
            let mut out = "Duckvalue::Float32(".to_owned();
            out.append(f.literal.as_str());
            out.append(")");
            out
        },
        core_types::Duckvalue::Text(s) => {
            let mut out = "Duckvalue::Text(".to_owned();
            out.append(quote_debug(s.as_str()).as_str());
            out.append(")");
            out
        },
        core_types::Duckvalue::Blob(b) => {
            let mut out = "Duckvalue::Blob([".to_owned();
            out.append(render_bytes(b).as_str());
            out.append("])");
            out
        },
        core_types::Duckvalue::Timestamp(n) => {
            let mut out = "Duckvalue::Timestamp(".to_owned();
            out.append(decimal_i128(*n as i128).as_str());
            out.append(")");
            out
        },
        core_types::Duckvalue::Date(n) => {
            let mut out = "Duckvalue::Date(".to_owned();
            out.append(decimal_i128(*n as i128).as_str());
            out.append(")");
            out
        },
        core_types::Duckvalue::Time(n) => {
            let mut out = "Duckvalue::Time(".to_owned();
            out.append(decimal_i128(*n as i128).as_str());
            out.append(")");
            out
        },
        core_types::Duckvalue::Timestamptz(n) => {
            let mut out = "Duckvalue::Timestamptz(".to_owned();
            out.append(decimal_i128(*n as i128).as_str());
            out.append(")");
            out
        },
        core_types::Duckvalue::Int64(n) => {
            let mut out = "Duckvalue::Int64(".to_owned();
            out.append(decimal_i128(*n as i128).as_str());
            out.append(")");
            out
        },
        core_types::Duckvalue::Uint64(n) => {
            let mut out = "Duckvalue::Uint64(".to_owned();
            out.append(decimal_u128(*n as u128).as_str());
            out.append(")");
            out
        },
        core_types::Duckvalue::Int32(n) => {
            let mut out = "Duckvalue::Int32(".to_owned();
            out.append(decimal_i128(*n as i128).as_str());
            out.append(")");
            out
        },
        core_types::Duckvalue::Int16(n) => {
            let mut out = "Duckvalue::Int16(".to_owned();
            out.append(decimal_i128(*n as i128).as_str());
            out.append(")");
            out
        },
        core_types::Duckvalue::Int8(n) => {
            let mut out = "Duckvalue::Int8(".to_owned();
            out.append(decimal_i128(*n as i128).as_str());
            out.append(")");
            out
        },
        core_types::Duckvalue::Uint32(n) => {
            let mut out = "Duckvalue::Uint32(".to_owned();
            out.append(decimal_u128(*n as u128).as_str());
            out.append(")");
            out
        },
        core_types::Duckvalue::Uint16(n) => {
            let mut out = "Duckvalue::Uint16(".to_owned();
            out.append(decimal_u128(*n as u128).as_str());
            out.append(")");
            out
        },
        core_types::Duckvalue::Uint8(n) => {
            let mut out = "Duckvalue::Uint8(".to_owned();
            out.append(decimal_u128(*n as u128).as_str());
            out.append(")");
            out
        },
        core_types::Duckvalue::Decimal(d) => {
            let mut out = "Duckvalue::Decimal(Decimalvalue { lower: ".to_owned();
            out.append(decimal_u128(d.lower as u128).as_str());
            out.append(", upper: ");
            out.append(decimal_u128(d.upper as u128).as_str());
            out.append(", width: ");
            out.append(decimal_u128(d.width as u128).as_str());
            out.append(", scale: ");
            out.append(decimal_u128(d.scale as u128).as_str());
            out.append(" })");
            out
        },
        core_types::Duckvalue::Interval(iv) => {
            let mut out = "Duckvalue::Interval(Intervalvalue { months: ".to_owned();
            out.append(decimal_i128(iv.months as i128).as_str());
            out.append(", days: ");
            out.append(decimal_i128(iv.days as i128).as_str());
            out.append(", micros: ");
            out.append(decimal_i128(iv.micros as i128).as_str());
            out.append(" })");
            out
        },
        core_types::Duckvalue::Uuid(u) => {
            let mut out = "Duckvalue::Uuid(Uuidvalue { hi: ".to_owned();
            out.append(decimal_u128(u.hi as u128).as_str());
            out.append(", lo: ");
            out.append(decimal_u128(u.lo as u128).as_str());
            out.append(" })");
            out
        },
        core_types::Duckvalue::Hugeint(h) => {
            let mut out = "Duckvalue::Hugeint(Hugeintvalue { lower: ".to_owned();
            out.append(decimal_u128(h.lower as u128).as_str());
            out.append(", upper: ");
            out.append(decimal_i128(h.upper as i128).as_str());
            out.append(" })");
            out
        },
        core_types::Duckvalue::Uhugeint(h) => {
            let mut out = "Duckvalue::Uhugeint(Uhugeintvalue { lower: ".to_owned();
            out.append(decimal_u128(h.lower as u128).as_str());
            out.append(", upper: ");
            out.append(decimal_u128(h.upper as u128).as_str());
            out.append(" })");
            out
        },
        core_types::Duckvalue::Complex(c) => {
            let mut out = "Duckvalue::Complex(Complexvalue { type_expr: ".to_owned();
            out.append(quote_debug(c.type_expr.as_str()).as_str());
            out.append(", json: ");
            out.append(quote_debug(c.json.as_str()).as_str());
            out.append(" })");
            out
        },
    }
}

// ---------------------------------------------------------------------------
// Row identifiers
// ---------------------------------------------------------------------------

/// The position of the first column whose name is `name` up to case; the number of
/// columns when there is none.
pub open spec fn column_slot(columns: Seq<ColumnModel>, name: Seq<char>) -> int
    decreases columns.len(),
{
    if columns.len() == 0 {
        0
    } else if lower(columns[0].name) == lower(name) {
        0
    } else {
        1 + column_slot(columns.drop_first(), name)
    }
}

fn find_column(columns: &Vec<extension_types::Columndef>, name: &str) -> (r: usize)
    ensures
        r == column_slot(views(columns@), name@),
        r <= columns@.len(),
{
    let ghost all = views(columns@);
    let mut i: usize = 0;
    assert(all.skip(0) =~= all);
    while i < columns.len()
        invariant
            i <= columns@.len(),
            all == views(columns@),
            column_slot(all, name@) == i + column_slot(all.skip(i as int), name@),
        decreases columns@.len() - i,
    {
        assert(all.skip(i as int)[0] == columns@[i as int]@);
        if same_text_ignoring_case(columns[i].name.as_str(), name) {
            return i;
        }
        assert(all.skip(i as int).drop_first() =~= all.skip(i + 1));
        i += 1;
    }
    i
}

pub open spec fn no_rowid_text(columns: Seq<ColumnModel>, alias: Seq<char>, table: Seq<char>) -> Seq<char> {
    "UPDATE/DELETE against "@ + dotted(alias, table)
        + " requires the storage extension to expose a 'rowid' column (ADR Amendment A5); the extension declared columns ["@
        + join_of(columns.map_values(|c: ColumnModel| c.name), ", "@) + "]"@
}

/// The position of the `rowid` column.
pub fn at5_locate_rowid_column(
    columns: &Vec<extension_types::Columndef>,
    alias: &str,
    table: &str,
) -> (r: Result<usize, cli_types::Duckerror>)
    ensures
        ({
            let slot = column_slot(views(columns@), "rowid"@);
            match r {
                Ok(i) => slot < columns@.len() && i == slot,
                Err(e) => slot >= columns@.len() && e@ == ErrorModel::Unsupported(
                    no_rowid_text(views(columns@), alias@, table@),
                ),
            }
        }),
{
    let i: usize = find_column(columns, "rowid");
    if i < columns.len() {
        return Ok(i);
    }
    let mut names: Vec<String> = Vec::new();
    let mut k: usize = 0;
    while k < columns.len()
        invariant
            k <= columns@.len(),
            names@.len() == k,
            forall|j: int| 0 <= j < k ==> (#[trigger] names@[j])@ == columns@[j].name@,
        decreases columns@.len() - k,
    {
        names.push(columns[k].name.clone());
        k += 1;
    }
    assert(views(names@) =~= views(columns@).map_values(|c: ColumnModel| c.name));
    let mut m = "UPDATE/DELETE against ".to_owned();
    m.append(dotted_name(alias, table).as_str());
    m.append(
        " requires the storage extension to expose a 'rowid' column (ADR Amendment A5); the extension declared columns [",
    );
    m.append(join(&names, ", ").as_str());
    m.append("]");
    Err(cli_types::Duckerror::Unsupported(m))
}

/// The row identifier that a cell holds: any integer that fits 64 bits with sign.
pub open spec fn rowid_of(v: ValueModel) -> Result<i64, Seq<char>> {
    match v {
        ValueModel::Int64(n) => Ok(n),
        ValueModel::Int32(n) => Ok(n as i64),
        ValueModel::Int16(n) => Ok(n as i64),
        ValueModel::Int8(n) => Ok(n as i64),
        ValueModel::Uint64(n) => if n <= i64::MAX {
            Ok(n as i64)
        } else {
            Err("u64 rowid "@ + decimal_of(n as int) + " overflows i64"@)
        },
        ValueModel::Uint32(n) => Ok(n as i64),
        ValueModel::Uint16(n) => Ok(n as i64),
        ValueModel::Uint8(n) => Ok(n as i64),
        _ => Err("rowid duckvalue arm "@ + arm_text(v) + " is not an integer"@),
    }
}

pub fn at5_duckvalue_to_i64(v: &core_types::Duckvalue) -> (r: Result<i64, String>)
    ensures
        match r {
            Ok(n) => rowid_of(v@) == Ok::<i64, Seq<char>>(n),
            Err(e) => rowid_of(v@) == Err::<i64, Seq<char>>(e@),
        },
{
    match v {
        core_types::Duckvalue::Int64(n) => Ok(*n),
        core_types::Duckvalue::Int32(n) => Ok(*n as i64),
        core_types::Duckvalue::Int16(n) => Ok(*n as i64),
        core_types::Duckvalue::Int8(n) => Ok(*n as i64),
        core_types::Duckvalue::Uint64(n) => {
            if *n <= i64::MAX as u64 {
                Ok(*n as i64)
            } else {
                let mut m = "u64 rowid ".to_owned();
                m.append(decimal_u128(*n as u128).as_str());
                m.append(" overflows i64");
                Err(m)
            }
        },
        core_types::Duckvalue::Uint32(n) => Ok(*n as i64),
        core_types::Duckvalue::Uint16(n) => Ok(*n as i64),
        core_types::Duckvalue::Uint8(n) => Ok(*n as i64),
        other => {
            let mut m = "rowid duckvalue arm ".to_owned();
            m.append(render_arm(other).as_str());
            m.append(" is not an integer");
            Err(m)
        },
    }
}

// ---------------------------------------------------------------------------
// The rows that an UPDATE or DELETE touches
// ---------------------------------------------------------------------------

pub open spec fn prescan_sql(
    alias: Seq<char>,
    table: Seq<char>,
    where_clause: Option<Seq<char>>,
) -> Seq<char> {
    "SELECT * FROM "@ + alias + ".main."@ + table + match where_clause {
        Some(p) => " WHERE "@ + p,
        None => Seq::empty(),
    }
}

fn build_prescan_sql(alias: &str, table: &str, where_clause: &Option<String>) -> (r: String)
    ensures
        r@ == prescan_sql(alias@, table@, crate::model::view_opt(*where_clause)),
{
    let mut filter = String::new();
    if let Some(p) = where_clause {
        filter = " WHERE ".to_owned();
        filter.append(p.as_str());
    }
    let mut sql = "SELECT * FROM ".to_owned();
    sql.append(alias);
    sql.append(".main.");
    sql.append(table);
    sql.append(filter.as_str());
    sql
}

/// Why a row of the scan cannot be used, if it cannot.
pub open spec fn row_error(
    row: Seq<ValueModel>,
    rowid: int,
    alias: Seq<char>,
    table: Seq<char>,
) -> Option<ErrorModel> {
    if rowid >= row.len() {
        Some(
            ErrorModel::Internal(
                "pre-scan row for "@ + dotted(alias, table) + " lacks rowid column at index "@
                    + decimal_of(rowid) + " (row has "@ + decimal_of(row.len() as int) + " cells)"@,
            ),
        )
    } else {
        match rowid_of(row[rowid]) {
            Ok(_) => None,
            Err(reason) => Some(
                ErrorModel::Internal(
                    "pre-scan row for "@ + dotted(alias, table)
                        + ": rowid column is not an integer ("@ + reason + ")"@,
                ),
            ),
        }
    }
}

/// The error of the first row that cannot be used.
pub open spec fn scan_error(
    rows: Seq<Seq<ValueModel>>,
    rowid: int,
    alias: Seq<char>,
    table: Seq<char>,
) -> Option<ErrorModel>
    decreases rows.len(),
{
    if rows.len() == 0 {
        None
    } else {
        match row_error(rows[0], rowid, alias, table) {
            Some(e) => Some(e),
            None => scan_error(rows.drop_first(), rowid, alias, table),
        }
    }
}

/// The row identifiers of rows that can all be used.
pub open spec fn rowids_of(rows: Seq<Seq<ValueModel>>, rowid: int) -> Seq<i64> {
    rows.map_values(|row: Seq<ValueModel>| rowid_of(row[rowid])->Ok_0)
}

fn convert_row(row: Vec<core_types::Duckvalue>) -> (r: Vec<extension_types::Duckvalue>)
    ensures
        views(r@) == views(row@),
{
    let mut out: Vec<extension_types::Duckvalue> = Vec::new();
    for v in it: row
        invariant
            it.seq() == row@,
            out@.len() == it.index(),
            forall|i: int| 0 <= i < out@.len() ==> (#[trigger] out@[i])@ == row@[i]@,
    {
        out.push(convert_core_duckvalue_to_extension(v));
    }
    assert(views(out@) =~= views(row@));
    out
}

/// The identifiers and the contents of the rows that a scan found.
pub fn at5_prescan_rows(
    rows: Vec<Vec<core_types::Duckvalue>>,
    rowid: usize,
    alias: &str,
    table: &str,
) -> (r: Result<(Vec<i64>, Vec<Vec<extension_types::Duckvalue>>), cli_types::Duckerror>)
    ensures
        match r {
            Ok((ids, kept)) => {
                &&& scan_error(rows_of(rows@), rowid as int, alias@, table@) is None
                &&& ids@ == rowids_of(rows_of(rows@), rowid as int)
                &&& rows_of(kept@) == rows_of(rows@)
            },
            Err(e) => scan_error(rows_of(rows@), rowid as int, alias@, table@) == Some(e@),
        },
{
    let ghost all = rows_of(rows@);
    let mut ids: Vec<i64> = Vec::new();
    let mut kept: Vec<Vec<extension_types::Duckvalue>> = Vec::new();
    assert(all.skip(0) =~= all);
    for row in it: rows
        invariant
            it.seq() == rows@,
            all == rows_of(rows@),
            ids@.len() == it.index(),
            kept@.len() == it.index(),
            forall|i: int|
                0 <= i < ids@.len() ==> #[trigger] ids@[i] == rowid_of(all[i][rowid as int])->Ok_0,
            forall|i: int| 0 <= i < kept@.len() ==> views((#[trigger] kept@[i])@) == all[i],
            scan_error(all, rowid as int, alias@, table@) == scan_error(
                all.skip(it.index()),
                rowid as int,
                alias@,
                table@,
            ),
    {
        let ghost here = all.skip(it.index());
        assert(here[0] == views(row@));
        assert(here.drop_first() =~= all.skip(it.index() + 1));
        let width: usize = row.len();
        if rowid >= width {
            let mut m = "pre-scan row for ".to_owned();
            m.append(dotted_name(alias, table).as_str());
            m.append(" lacks rowid column at index ");
            m.append(decimal_u128(rowid as u128).as_str());
            m.append(" (row has ");
            m.append(decimal_u128(width as u128).as_str());
            m.append(" cells)");
            return Err(cli_types::Duckerror::Internal(m));
        }
        assert(views(row@)[rowid as int] == row@[rowid as int]@);
        match at5_duckvalue_to_i64(&row[rowid]) {
            Ok(id) => ids.push(id),
            Err(reason) => {
                let mut m = "pre-scan row for ".to_owned();
                m.append(dotted_name(alias, table).as_str());
                m.append(": rowid column is not an integer (");
                m.append(reason.as_str());
                m.append(")");
                return Err(cli_types::Duckerror::Internal(m));
            },
        }
        kept.push(convert_row(row));
    }
    assert(ids@ =~= rowids_of(all, rowid as int));
    assert(rows_of(kept@) =~= all);
    Ok((ids, kept))
}

// ---------------------------------------------------------------------------
// INSERT
// ---------------------------------------------------------------------------

/// Why the first cell that is no literal is refused.
pub open spec fn literal_error(row: Seq<ValueLiteral>) -> Option<Seq<char>>
    decreases row.len(),
{
    if row.len() == 0 {
        None
    } else {
        match literal_value(row[0]) {
            Err(reason) => Some(reason),
            Ok(_) => literal_error(row.drop_first()),
        }
    }
}

/// The values of a row of literals.
pub open spec fn literal_values(row: Seq<ValueLiteral>) -> Seq<ValueModel> {
    row.map_values(|l: ValueLiteral| literal_value(l)->Ok_0)
}

/// Why a row cannot be inserted: its length does not match the named columns, or it
/// holds an expression.
pub open spec fn insert_row_error(
    row: Seq<ValueLiteral>,
    columns: int,
    alias: Seq<char>,
    table: Seq<char>,
) -> Option<ErrorModel> {
    if columns > 0 && row.len() != columns {
        Some(
            ErrorModel::Invalidargument(
                "INSERT into "@ + dotted(alias, table) + ": "@ + decimal_of(row.len() as int)
                    + " values for "@ + decimal_of(columns) + " named columns"@,
            ),
        )
    } else {
        match literal_error(row) {
            Some(reason) => Some(ErrorModel::Unsupported(unsupported_text(reason))),
            None => None,
        }
    }
}

/// The error of the first row that cannot be inserted.
pub open spec fn insert_error(
    rows: Seq<Vec<ValueLiteral>>,
    columns: int,
    alias: Seq<char>,
    table: Seq<char>,
) -> Option<ErrorModel>
    decreases rows.len(),
{
    if rows.len() == 0 {
        None
    } else {
        match insert_row_error(rows[0]@, columns, alias, table) {
            Some(e) => Some(e),
            None => insert_error(rows.drop_first(), columns, alias, table),
        }
    }
}

fn convert_literals(row: Vec<ValueLiteral>) -> (r: Result<Vec<extension_types::Duckvalue>, String>)
    ensures
        match r {
            Ok(vals) => literal_error(row@) is None && views(vals@) == literal_values(row@),
            Err(e) => literal_error(row@) == Some(e@),
        },
{
    let mut out: Vec<extension_types::Duckvalue> = Vec::new();
    assert(row@.skip(0) =~= row@);
    for lit in it: row
        invariant
            it.seq() == row@,
            out@.len() == it.index(),
            forall|i: int| 0 <= i < out@.len() ==> (#[trigger] out@[i])@ == literal_value(row@[i])->Ok_0,
            literal_error(row@) == literal_error(row@.skip(it.index())),
    {
        assert(row@.skip(it.index())[0] == lit);
        assert(row@.skip(it.index()).drop_first() =~= row@.skip(it.index() + 1));
        match literal_to_extension_duckvalue(lit) {
            Ok(v) => out.push(v),
            Err(e) => {
                return Err(e);
            },
        }
    }
    assert(views(out@) =~= literal_values(row@));
    Ok(out)
}

fn convert_insert_rows(
    rows: Vec<Vec<ValueLiteral>>,
    columns: usize,
    alias: &str,
    table: &str,
) -> (r: Result<Vec<Vec<extension_types::Duckvalue>>, cli_types::Duckerror>)
    ensures
        match r {
            Ok(out) => {
                &&& insert_error(rows@, columns as int, alias@, table@) is None
                &&& rows_of(out@) == rows@.map_values(|row: Vec<ValueLiteral>| literal_values(row@))
            },
            Err(e) => insert_error(rows@, columns as int, alias@, table@) == Some(e@),
        },
{
    let mut out: Vec<Vec<extension_types::Duckvalue>> = Vec::new();
    assert(rows@.skip(0) =~= rows@);
    for row in it: rows
        invariant
            it.seq() == rows@,
            out@.len() == it.index(),
            forall|i: int| 0 <= i < out@.len() ==> views((#[trigger] out@[i])@) == literal_values(rows@[i]@),
            insert_error(rows@, columns as int, alias@, table@) == insert_error(
                rows@.skip(it.index()),
                columns as int,
                alias@,
                table@,
            ),
    {
        assert(rows@.skip(it.index())[0] == row);
        assert(rows@.skip(it.index()).drop_first() =~= rows@.skip(it.index() + 1));
        let width: usize = row.len();
        if columns > 0 && width != columns {
            let mut m = "INSERT into ".to_owned();
            m.append(dotted_name(alias, table).as_str());
            m.append(": ");
            m.append(decimal_u128(width as u128).as_str());
            m.append(" values for ");
            m.append(decimal_u128(columns as u128).as_str());
            m.append(" named columns");
            return Err(cli_types::Duckerror::Invalidargument(m));
        }
        match convert_literals(row) {
            Ok(cells) => out.push(cells),
            Err(reason) => {
                return Err(unsupported(reason.as_str()));
            },
        }
    }
    assert(rows_of(out@) =~= rows@.map_values(|row: Vec<ValueLiteral>| literal_values(row@)));
    Ok(out)
}

// ---------------------------------------------------------------------------
// UPDATE
// ---------------------------------------------------------------------------

/// Why the first assignment whose right side is no literal is refused.
pub open spec fn assignment_error(assignments: Seq<(String, ValueLiteral)>) -> Option<Seq<char>>
    decreases assignments.len(),
{
    if assignments.len() == 0 {
        None
    } else {
        match literal_value(assignments[0].1) {
            Err(reason) => Some(reason),
            Ok(_) => assignment_error(assignments.drop_first()),
        }
    }
}

/// The first assigned column that the table does not have.
pub open spec fn unknown_column(
    assignments: Seq<(String, ValueLiteral)>,
    columns: Seq<ColumnModel>,
) -> Option<Seq<char>>
    decreases assignments.len(),
{
    if assignments.len() == 0 {
        None
    } else if column_slot(columns, assignments[0].0@) >= columns.len() {
        Some(assignments[0].0@)
    } else {
        unknown_column(assignments.drop_first(), columns)
    }
}

/// Each assignment as the position of its column and the value.
pub open spec fn assigned_slots(
    assignments: Seq<(String, ValueLiteral)>,
    columns: Seq<ColumnModel>,
) -> Seq<(int, ValueModel)> {
    assignments.map_values(
        |a: (String, ValueLiteral)|
            (column_slot(columns, a.0@), literal_value(a.1)->Ok_0),
    )
}

/// The resolved assignments as positions and values.
pub open spec fn slots_of(assigned: Seq<(usize, extension_types::Duckvalue)>) -> Seq<(int, ValueModel)> {
    assigned.map_values(|a: (usize, extension_types::Duckvalue)| (a.0 as int, a.1@))
}

/// Why an `UPDATE` cannot be carried out once the columns of its table are known:
/// the table has no `rowid`, a right side is no literal, or a column is unknown.
pub open spec fn update_error(
    assignments: Seq<(String, ValueLiteral)>,
    columns: Seq<ColumnModel>,
    alias: Seq<char>,
    table: Seq<char>,
) -> Option<ErrorModel> {
    if column_slot(columns, "rowid"@) >= columns.len() {
        Some(ErrorModel::Unsupported(no_rowid_text(columns, alias, table)))
    } else if assignment_error(assignments) is Some {
        Some(ErrorModel::Unsupported(unsupported_text(assignment_error(assignments)->0)))
    } else if unknown_column(assignments, columns) is Some {
        Some(
            ErrorModel::Invalidargument(
                "UPDATE "@ + dotted(alias, table) + ": column '"@ + unknown_column(
                    assignments,
                    columns,
                )->0 + "' is not declared by the storage extension"@,
            ),
        )
    } else {
        None
    }
}

/// The first `n` assignments written into a row. A position behind the end of the
/// row is passed over; a later assignment to the same position wins.
pub open spec fn merged(row: Seq<ValueModel>, slots: Seq<(int, ValueModel)>, n: nat) -> Seq<ValueModel>
    decreases n,
{
    if n == 0 || n > slots.len() {
        row
    } else {
        let before = merged(row, slots, (n - 1) as nat);
        let (i, v) = slots[n - 1];
        if 0 <= i < before.len() {
            before.update(i, v)
        } else {
            before
        }
    }
}

/// Every row with all assignments written into it.
pub open spec fn merged_rows(
    rows: Seq<Seq<ValueModel>>,
    slots: Seq<(int, ValueModel)>,
) -> Seq<Seq<ValueModel>> {
    rows.map_values(|row: Seq<ValueModel>| merged(row, slots, slots.len()))
}

fn convert_assignments(assignments: Vec<(String, ValueLiteral)>) -> (r: Result<
    Vec<(String, extension_types::Duckvalue)>,
    String,
>)
    ensures
        match r {
            Ok(out) => {
                &&& assignment_error(assignments@) is None
                &&& out@.len() == assignments@.len()
                &&& forall|i: int|
                    0 <= i < out@.len() ==> (#[trigger] out@[i]).0@ == assignments@[i].0@
                        && out@[i].1@ == literal_value(assignments@[i].1)->Ok_0
            },
            Err(e) => assignment_error(assignments@) == Some(e@),
        },
{
    let mut out: Vec<(String, extension_types::Duckvalue)> = Vec::new();
    let ghost all = assignments@;
    assert(all.skip(0) =~= all);
    for a in it: assignments
        invariant
            it.seq() == assignments@,
            all == assignments@,
            out@.len() == it.index(),
            forall|i: int|
                0 <= i < out@.len() ==> (#[trigger] out@[i]).0@ == all[i].0@ && out@[i].1@
                    == literal_value(all[i].1)->Ok_0,
            assignment_error(all) == assignment_error(all.skip(it.index())),
    {
        assert(all.skip(it.index())[0] == a);
        assert(all.skip(it.index()).drop_first() =~= all.skip(it.index() + 1));
        let (column, lit) = a;
        match literal_to_extension_duckvalue(lit) {
            Ok(v) => out.push((column, v)),
            Err(e) => {
                return Err(e);
            },
        }
    }
    Ok(out)
}

/// Resolves the assignments of an `UPDATE` against the columns of its table.
fn resolve_assignments(
    assignments: Vec<(String, ValueLiteral)>,
    columns: &Vec<extension_types::Columndef>,
    alias: &str,
    table: &str,
) -> (r: Result<(usize, Vec<(usize, extension_types::Duckvalue)>), cli_types::Duckerror>)
    ensures
        match r {
            Ok((rowid, assigned)) => {
                &&& update_error(assignments@, views(columns@), alias@, table@) is None
                &&& rowid == column_slot(views(columns@), "rowid"@)
                &&& slots_of(assigned@) == assigned_slots(assignments@, views(columns@))
            },
            Err(e) => update_error(assignments@, views(columns@), alias@, table@) == Some(e@),
        },
{
    let rowid: usize = match at5_locate_rowid_column(columns, alias, table) {
        Ok(i) => i,
        Err(e) => {
            return Err(e);
        },
    };
    let ghost all = assignments@;
    let ghost cols = views(columns@);
    let values = match convert_assignments(assignments) {
        Ok(v) => v,
        Err(reason) => {
            return Err(unsupported(reason.as_str()));
        },
    };
    let mut assigned: Vec<(usize, extension_types::Duckvalue)> = Vec::new();
    assert(all.skip(0) =~= all);
    for a in it: values
        invariant
            it.seq() == values@,
            cols == views(columns@),
            all == assignments@,
            values@.len() == all.len(),
            forall|i: int|
                0 <= i < values@.len() ==> (#[trigger] values@[i]).0@ == all[i].0@ && values@[i].1@
                    == literal_value(all[i].1)->Ok_0,
            column_slot(cols, "rowid"@) < cols.len(),
            assignment_error(all) is None,
            assigned@.len() == it.index(),
            forall|i: int|
                0 <= i < assigned@.len() ==> (#[trigger] assigned@[i]).0 == column_slot(cols, all[i].0@)
                    && assigned@[i].1@ == literal_value(all[i].1)->Ok_0,
            unknown_column(all, cols) == unknown_column(all.skip(it.index()), cols),
    {
        assert(all.skip(it.index())[0] == all[it.index()]);
        assert(all.skip(it.index()).drop_first() =~= all.skip(it.index() + 1));
        let (column, value) = a;
        let i: usize = find_column(columns, column.as_str());
        if i >= columns.len() {
            let mut m = "UPDATE ".to_owned();
            m.append(dotted_name(alias, table).as_str());
            m.append(": column '");
            m.append(column.as_str());
            m.append("' is not declared by the storage extension");
            return Err(cli_types::Duckerror::Invalidargument(m));
        }
        assigned.push((i, value));
    }
    assert(slots_of(assigned@) =~= assigned_slots(all, cols));
    Ok((rowid, assigned))
}

fn merge_row(
    row: Vec<extension_types::Duckvalue>,
    assigned: &Vec<(usize, extension_types::Duckvalue)>,
) -> (r: Vec<extension_types::Duckvalue>)
    ensures
        views(r@) == merged(views(row@), slots_of(assigned@), assigned@.len()),
{
    let ghost slots = slots_of(assigned@);
    let ghost start = views(row@);
    let mut row = row;
    let mut k: usize = 0;
    while k < assigned.len()
        invariant
            k <= assigned@.len(),
            slots == slots_of(assigned@),
            views(row@) == merged(start, slots, k as nat),
        decreases assigned@.len() - k,
    {
        let i: usize = assigned[k].0;
        let ghost before = row@;
        if i < row.len() {
            row.set(i, extension_types::copy_value(&assigned[k].1));
            assert(views(row@) =~= views(before).update(i as int, assigned@[k as int].1@));
        }
        k += 1;
    }
    row
}

fn merge_rows(
    rows: Vec<Vec<extension_types::Duckvalue>>,
    assigned: &Vec<(usize, extension_types::Duckvalue)>,
) -> (r: Vec<Vec<extension_types::Duckvalue>>)
    ensures
        rows_of(r@) == merged_rows(rows_of(rows@), slots_of(assigned@)),
{
    let ghost slots = slots_of(assigned@);
    let mut out: Vec<Vec<extension_types::Duckvalue>> = Vec::new();
    for row in it: rows
        invariant
            it.seq() == rows@,
            slots == slots_of(assigned@),
            out@.len() == it.index(),
            forall|i: int|
                0 <= i < out@.len() ==> views((#[trigger] out@[i])@) == merged(
                    views(rows@[i]@),
                    slots,
                    slots.len(),
                ),
    {
        out.push(merge_row(row, assigned));
    }
    assert(rows_of(out@) =~= merged_rows(rows_of(rows@), slots));
    out
}

// ---------------------------------------------------------------------------
// CREATE TABLE
// ---------------------------------------------------------------------------

/// Why the first column whose type is not known is refused.
pub open spec fn create_error(
    columns: Seq<ColumnSpec>,
    alias: Seq<char>,
    table: Seq<char>,
) -> Option<ErrorModel>
    decreases columns.len(),
{
    if columns.len() == 0 {
        None
    } else {
        match sql_type_of(columns[0].ty_name@) {
            Err(reason) => Some(
                ErrorModel::Unsupported(
                    unsupported_text(
                        "CREATE TABLE "@ + dotted(alias, table) + ": column '"@ + columns[0].name@
                            + "' type '"@ + columns[0].ty_name@ + "' -- "@ + reason,
                    ),
                ),
            ),
            Ok(_) => create_error(columns.drop_first(), alias, table),
        }
    }
}

/// The columns with their types.
pub open spec fn created_columns(columns: Seq<ColumnSpec>) -> Seq<ColumnModel> {
    columns.map_values(
        |c: ColumnSpec| ColumnModel { name: c.name@, logical: sql_type_of(c.ty_name@)->Ok_0 },
    )
}

fn convert_columns(
    columns: Vec<ColumnSpec>,
    alias: &str,
    table: &str,
) -> (r: Result<Vec<extension_types::Columndef>, cli_types::Duckerror>)
    ensures
        match r {
            Ok(out) => create_error(columns@, alias@, table@) is None && views(out@)
                == created_columns(columns@),
            Err(e) => create_error(columns@, alias@, table@) == Some(e@),
        },
{
    let ghost all = columns@;
    let mut out: Vec<extension_types::Columndef> = Vec::new();
    assert(all.skip(0) =~= all);
    for c in it: columns
        invariant
            it.seq() == columns@,
            all == columns@,
            out@.len() == it.index(),
            forall|i: int|
                0 <= i < out@.len() ==> (#[trigger] out@[i])@ == (ColumnModel {
                    name: all[i].name@,
                    logical: sql_type_of(all[i].ty_name@)->Ok_0,
                }),
            create_error(all, alias@, table@) == create_error(all.skip(it.index()), alias@, table@),
    {
        assert(all.skip(it.index())[0] == c);
        assert(all.skip(it.index()).drop_first() =~= all.skip(it.index() + 1));
        match sql_type_to_extension_logical(c.ty_name.as_str()) {
            Ok(logical) => out.push(extension_types::Columndef { name: c.name, logical }),
            Err(reason) => {
                let mut m = "CREATE TABLE ".to_owned();
                m.append(dotted_name(alias, table).as_str());
                m.append(": column '");
                m.append(c.name.as_str());
                m.append("' type '");
                m.append(c.ty_name.as_str());
                m.append("' -- ");
                m.append(reason.as_str());
                return Err(unsupported(m.as_str()));
            },
        }
    }
    assert(views(out@) =~= created_columns(all));
    Ok(out)
}

/// A table of that name, up to case, is among `tables`.
pub open spec fn has_table(tables: Seq<Seq<char>>, table: Seq<char>) -> bool {
    exists|i: int| 0 <= i < tables.len() && lower(#[trigger] tables[i]) == lower(table)
}

fn table_listed(tables: &Vec<String>, table: &str) -> (r: bool)
    ensures
        r == has_table(views(tables@), table@),
{
    let mut i: usize = 0;
    while i < tables.len()
        invariant
            i <= tables@.len(),
            forall|j: int| 0 <= j < i ==> lower(#[trigger] views(tables@)[j]) != lower(table@),
        decreases tables@.len() - i,
    {
        assert(views(tables@)[i as int] == tables@[i as int]@);
        if same_text_ignoring_case(tables[i].as_str(), table) {
            return true;
        }
        i += 1;
    }
    false
}

// ---------------------------------------------------------------------------
// The steps
// ---------------------------------------------------------------------------

/// The statement ends without rows.
pub open spec fn ends(after: WriteState, action: WriteAction) -> bool {
    &&& after is Finished
    &&& action matches WriteAction::Finish(Ok(qr))
    &&& qr@ == no_rows()
}

/// The statement ends with an error.
pub open spec fn ends_with(after: WriteState, action: WriteAction, e: ErrorModel) -> bool {
    &&& after is Finished
    &&& action matches WriteAction::Finish(Err(err))
    &&& err@ == e
}

/// An extension's error says that a table is there already.
pub open spec fn says_present(msg: Seq<char>) -> bool {
    has_infix(lower(msg), "already exists"@) || has_infix(lower(msg), "duplicate"@)
}

fn tells_present(msg: &str) -> (r: bool)
    ensures
        r == says_present(msg@),
{
    let m = ascii_lowercase(msg);
    contains(m.as_str(), "already exists") || contains(m.as_str(), "duplicate")
}

/// The columns are resolved and handed to the extension, unless one is refused.
pub open spec fn creates(
    alias: Seq<char>,
    table: Seq<char>,
    target: Target,
    columns: Seq<ColumnSpec>,
    if_not_exists: bool,
    after: WriteState,
    action: WriteAction,
) -> bool {
    match create_error(columns, alias, table) {
        Some(e) => ends_with(after, action, e),
        None => {
            &&& action matches WriteAction::Create { target: to, table: t, columns: cols }
            &&& to == target
            &&& t@ == table
            &&& views(cols@) == created_columns(columns)
            &&& after matches WriteState::Creating { alias: a, target: kept, if_not_exists: lenient }
            &&& a@ == alias
            &&& kept == target
            &&& lenient == if_not_exists
        },
    }
}

/// How a write begins.
pub open spec fn write_begins(
    route: WriteRoute,
    attached: Map<Seq<char>, AttachedForeignCatalog>,
    after: WriteState,
    action: WriteAction,
) -> bool {
    match route {
        WriteRoute::Unsupported(reason) => ends_with(
            after,
            action,
            ErrorModel::Unsupported(unsupported_text(reason@)),
        ),
        WriteRoute::Insert { alias, table, columns, rows } => match write_target(alias@, attached) {
            Err(e) => ends_with(after, action, e),
            Ok(target) => match insert_error(rows@, columns@.len() as int, alias@, table@) {
                Some(e) => ends_with(after, action, e),
                None => {
                    &&& action matches WriteAction::Insert { target: to, table: t, rows: out }
                    &&& to == target
                    &&& t@ == table@
                    &&& rows_of(out@) == rows@.map_values(
                        |row: Vec<ValueLiteral>| literal_values(row@),
                    )
                    &&& after == (WriteState::Storing { alias, target })
                },
            },
        },
        WriteRoute::Update { alias, table, assignments, where_clause } => match write_target(
            alias@,
            attached,
        ) {
            Err(e) => ends_with(after, action, e),
            Ok(target) => {
                &&& action == (WriteAction::TableColumns { target, table })
                &&& after == (WriteState::UpdateColumns {
                    alias,
                    table,
                    target,
                    assignments,
                    where_clause,
                })
            },
        },
        WriteRoute::CreateTable { alias, table, definitions, if_not_exists } => match write_target(
            alias@,
            attached,
        ) {
            Err(e) => ends_with(after, action, e),
            Ok(target) => if if_not_exists {
                &&& action == (WriteAction::ListTables { target })
                &&& after == (WriteState::CreateProbe { alias, table, target, columns: definitions })
            } else {
                creates(alias@, table@, target, definitions@, false, after, action)
            },
        },
        WriteRoute::Delete { alias, table, where_clause } => match write_target(alias@, attached) {
            Err(e) => ends_with(after, action, e),
            Ok(target) => {
                &&& action == (WriteAction::TableColumns { target, table })
                &&& after == (WriteState::DeleteColumns { alias, table, target, where_clause })
            },
        },
    }
}

/// The file that a change has to be written back to: none for an alias that is gone,
/// a read-only catalog, one that persists by itself, or one that is no local file.
pub open spec fn write_back_path(
    alias: Seq<char>,
    attached: Map<Seq<char>, AttachedForeignCatalog>,
) -> Option<String> {
    if attached.contains_key(alias) && !attached[alias].read_only
        && !attached[alias].writes_persist_directly {
        attached[alias].dsn_path
    } else {
        None
    }
}

/// One step of a write.
pub open spec fn write_next(
    state: WriteState,
    event: WriteEvent,
    attached: Map<Seq<char>, AttachedForeignCatalog>,
    after: WriteState,
    action: WriteAction,
) -> bool {
    match (state, event) {
        (
            WriteState::UpdateColumns { alias, table, target, assignments, where_clause },
            WriteEvent::Columns(Ok(columns)),
        ) => match update_error(assignments@, views(columns@), alias@, table@) {
            Some(e) => ends_with(after, action, e),
            None => {
                &&& action matches WriteAction::Scan { sql }
                &&& sql@ == prescan_sql(alias@, table@, crate::model::view_opt(where_clause))
                &&& after matches WriteState::UpdateRows {
                    alias: a,
                    table: t,
                    target: to,
                    rowid,
                    assigned,
                }
                &&& a == alias
                &&& t == table
                &&& to == target
                &&& rowid == column_slot(views(columns@), "rowid"@)
                &&& slots_of(assigned@) == assigned_slots(assignments@, views(columns@))
            },
        },
        (
            WriteState::DeleteColumns { alias, table, target, where_clause },
            WriteEvent::Columns(Ok(columns)),
        ) => {
            let rowid = column_slot(views(columns@), "rowid"@);
            if rowid >= columns@.len() {
                ends_with(
                    after,
                    action,
                    ErrorModel::Unsupported(no_rowid_text(views(columns@), alias@, table@)),
                )
            } else {
                &&& action matches WriteAction::Scan { sql }
                &&& sql@ == prescan_sql(alias@, table@, crate::model::view_opt(where_clause))
                &&& after == (WriteState::DeleteRows { alias, table, target, rowid: rowid as usize })
            }
        },
        (WriteState::UpdateColumns { .. }, WriteEvent::Columns(Err(e))) => ends_with(after, action, e@),
        (WriteState::DeleteColumns { .. }, WriteEvent::Columns(Err(e))) => ends_with(after, action, e@),
        (
            WriteState::UpdateRows { alias, table, target, rowid, assigned },
            WriteEvent::Scanned(ScanReply::Rows(qr)),
        ) => match scan_error(qr@.rows, rowid as int, alias@, table@) {
            Some(e) => ends_with(after, action, e),
            None => if qr@.rows.len() == 0 {
                ends(after, action)
            } else {
                &&& action matches WriteAction::Update { target: to, table: t, rowids, rows }
                &&& to == target
                &&& t == table
                &&& rowids@ == rowids_of(qr@.rows, rowid as int)
                &&& rows_of(rows@) == merged_rows(qr@.rows, slots_of(assigned@))
                &&& after == (WriteState::Storing { alias, target })
            },
        },
        (
            WriteState::DeleteRows { alias, table, target, rowid },
            WriteEvent::Scanned(ScanReply::Rows(qr)),
        ) => match scan_error(qr@.rows, rowid as int, alias@, table@) {
            Some(e) => ends_with(after, action, e),
            None => if qr@.rows.len() == 0 {
                ends(after, action)
            } else {
                &&& action matches WriteAction::Delete { target: to, table: t, rowids }
                &&& to == target
                &&& t == table
                &&& rowids@ == rowids_of(qr@.rows, rowid as int)
                &&& after == (WriteState::Storing { alias, target })
            },
        },
        (WriteState::UpdateRows { .. }, WriteEvent::Scanned(ScanReply::Failed(e))) => ends_with(
            after,
            action,
            e@,
        ),
        (WriteState::DeleteRows { .. }, WriteEvent::Scanned(ScanReply::Failed(e))) => ends_with(
            after,
            action,
            e@,
        ),
        (WriteState::UpdateRows { .. }, WriteEvent::Scanned(ScanReply::Trapped(t))) => ends_with(
            after,
            action,
            ErrorModel::Internal(t@),
        ),
        (WriteState::DeleteRows { .. }, WriteEvent::Scanned(ScanReply::Trapped(t))) => ends_with(
            after,
            action,
            ErrorModel::Internal(t@),
        ),
        (
            WriteState::CreateProbe { alias, table, target, columns },
            WriteEvent::Tables(Ok(tables)),
        ) => if has_table(views(tables@), table@) {
            ends(after, action)
        } else {
            creates(alias@, table@, target, columns@, true, after, action)
        },
        (WriteState::CreateProbe { .. }, WriteEvent::Tables(Err(e))) => ends_with(after, action, e@),
        (WriteState::Storing { alias, target }, WriteEvent::Stored(Ok(_))) => match write_back_path(
            alias@,
            attached,
        ) {
            Some(path) => {
                &&& action == (WriteAction::Serialize { target })
                &&& after == (WriteState::Serializing { path })
            },
            None => ends(after, action),
        },
        (WriteState::Storing { .. }, WriteEvent::Stored(Err(e))) => ends_with(after, action, e@),
        (WriteState::Creating { alias, target, .. }, WriteEvent::Stored(Ok(_))) => {
            match write_back_path(alias@, attached) {
                Some(path) => {
                    &&& action == (WriteAction::Serialize { target })
                    &&& after == (WriteState::Serializing { path })
                },
                None => ends(after, action),
            }
        },
        (WriteState::Creating { if_not_exists, .. }, WriteEvent::Stored(Err(e))) => {
            if if_not_exists && says_present(message_of(e@)) {
                ends(after, action)
            } else {
                ends_with(after, action, e@)
            }
        },
        (WriteState::Serializing { path }, WriteEvent::Serialized(Ok(bytes))) => {
            &&& action == (WriteAction::WriteFile { path, bytes })
            &&& after == (WriteState::Writing { path })
        },
        (WriteState::Serializing { .. }, WriteEvent::Serialized(Err(e))) => if e is Unsupported {
            ends(after, action)
        } else {
            ends_with(after, action, e@)
        },
        (WriteState::Writing { .. }, WriteEvent::Written(Ok(_))) => ends(after, action),
        (WriteState::Writing { path }, WriteEvent::Written(Err(e))) => ends_with(
            after,
            action,
            ErrorModel::Io("AT5 write-back to "@ + path@ + ": "@ + e@),
        ),
        _ => after == state && action is Ignore,
    }
}

fn finish() -> (r: (WriteState, WriteAction))
    ensures
        ends(r.0, r.1),
{
    (WriteState::Finished, WriteAction::Finish(Ok(empty_query_result())))
}

fn fail(err: cli_types::Duckerror) -> (r: (WriteState, WriteAction))
    ensures
        ends_with(r.0, r.1, err@),
{
    (WriteState::Finished, WriteAction::Finish(Err(err)))
}

fn create(
    alias: String,
    table: String,
    target: Target,
    columns: Vec<ColumnSpec>,
    if_not_exists: bool,
) -> (r: (WriteState, WriteAction))
    ensures
        creates(alias@, table@, target, columns@, if_not_exists, r.0, r.1),
{
    match convert_columns(columns, alias.as_str(), table.as_str()) {
        Ok(cols) => (
            WriteState::Creating { alias, target: copy_target(&target), if_not_exists },
            WriteAction::Create { target, table, columns: cols },
        ),
        Err(e) => fail(e),
    }
}

/// Begins a write: checks what can be checked at once, and says what to ask first.
pub fn begin_write(
    route: WriteRoute,
    attached: &NameMap<AttachedForeignCatalog>,
) -> (r: (WriteState, WriteAction))
    ensures
        write_begins(route, attached@, r.0, r.1),
{
    match route {
        WriteRoute::Unsupported(reason) => fail(unsupported(reason.as_str())),
        WriteRoute::Insert { alias, table, columns, rows } => {
            match at5_lookup_write_target(alias.as_str(), attached) {
                Err(e) => fail(e),
                Ok(target) => match convert_insert_rows(
                    rows,
                    columns.len(),
                    alias.as_str(),
                    table.as_str(),
                ) {
                    Ok(out) => (
                        WriteState::Storing { alias, target: copy_target(&target) },
                        WriteAction::Insert { target, table, rows: out },
                    ),
                    Err(e) => fail(e),
                },
            }
        },
        WriteRoute::Update { alias, table, assignments, where_clause } => {
            match at5_lookup_write_target(alias.as_str(), attached) {
                Err(e) => fail(e),
                Ok(target) => {
                    let action = WriteAction::TableColumns {
                        target: copy_target(&target),
                        table: table.clone(),
                    };
                    (
                        WriteState::UpdateColumns { alias, table, target, assignments, where_clause },
                        action,
                    )
                },
            }
        },
        WriteRoute::CreateTable { alias, table, definitions, if_not_exists } => {
            match at5_lookup_write_target(alias.as_str(), attached) {
                Err(e) => fail(e),
                Ok(target) => {
                    if if_not_exists {
                        let action = WriteAction::ListTables { target: copy_target(&target) };
                        (WriteState::CreateProbe { alias, table, target, columns: definitions }, action)
                    } else {
                        create(alias, table, target, definitions, false)
                    }
                },
            }
        },
        WriteRoute::Delete { alias, table, where_clause } => {
            match at5_lookup_write_target(alias.as_str(), attached) {
                Err(e) => fail(e),
                Ok(target) => {
                    let action = WriteAction::TableColumns {
                        target: copy_target(&target),
                        table: table.clone(),
                    };
                    (WriteState::DeleteColumns { alias, table, target, where_clause }, action)
                },
            }
        },
    }
}

/// What follows a change that the extension has made.
pub fn at5_write_back(
    alias: &str,
    target: Target,
    attached: &NameMap<AttachedForeignCatalog>,
) -> (r: (WriteState, WriteAction))
    ensures
        match write_back_path(alias@, attached@) {
            Some(path) => {
                &&& r.1 == (WriteAction::Serialize { target })
                &&& r.0 == (WriteState::Serializing { path })
            },
            None => ends(r.0, r.1),
        },
{
    match attached.get(alias) {
        None => finish(),
        Some(cat) => {
            if cat.read_only || cat.writes_persist_directly {
                return finish();
            }
            match &cat.dsn_path {
                None => finish(),
                Some(path) => (
                    WriteState::Serializing { path: path.clone() },
                    WriteAction::Serialize { target },
                ),
            }
        },
    }
}

/// Takes the answer that came and says what is to be done next.
pub fn intercept_write(
    state: WriteState,
    event: WriteEvent,
    attached: &NameMap<AttachedForeignCatalog>,
) -> (r: (WriteState, WriteAction))
    ensures
        write_next(state, event, attached@, r.0, r.1),
{
    match (state, event) {
        (
            WriteState::UpdateColumns { alias, table, target, assignments, where_clause },
            WriteEvent::Columns(Ok(columns)),
        ) => match resolve_assignments(assignments, &columns, alias.as_str(), table.as_str()) {
            Err(e) => fail(e),
            Ok((rowid, assigned)) => {
                let sql = build_prescan_sql(alias.as_str(), table.as_str(), &where_clause);
                (
                    WriteState::UpdateRows { alias, table, target, rowid, assigned },
                    WriteAction::Scan { sql },
                )
            },
        },
        (
            WriteState::DeleteColumns { alias, table, target, where_clause },
            WriteEvent::Columns(Ok(columns)),
        ) => match at5_locate_rowid_column(&columns, alias.as_str(), table.as_str()) {
            Err(e) => fail(e),
            Ok(rowid) => {
                let sql = build_prescan_sql(alias.as_str(), table.as_str(), &where_clause);
                (WriteState::DeleteRows { alias, table, target, rowid }, WriteAction::Scan { sql })
            },
        },
        (WriteState::UpdateColumns { .. }, WriteEvent::Columns(Err(e))) => fail(
            cli_extension_duckerror(e),
        ),
        (WriteState::DeleteColumns { .. }, WriteEvent::Columns(Err(e))) => fail(
            cli_extension_duckerror(e),
        ),
        (
            WriteState::UpdateRows { alias, table, target, rowid, assigned },
            WriteEvent::Scanned(ScanReply::Rows(qr)),
        ) => {
            match at5_prescan_rows(qr.rows, rowid, alias.as_str(), table.as_str()) {
                Err(e) => fail(e),
                Ok((rowids, kept)) => {
                    if rowids.len() == 0 {
                        return finish();
                    }
                    let rows = merge_rows(kept, &assigned);
                    (
                        WriteState::Storing { alias, target: copy_target(&target) },
                        WriteAction::Update { target, table, rowids, rows },
                    )
                },
            }
        },
        (
            WriteState::DeleteRows { alias, table, target, rowid },
            WriteEvent::Scanned(ScanReply::Rows(qr)),
        ) => match at5_prescan_rows(qr.rows, rowid, alias.as_str(), table.as_str()) {
            Err(e) => fail(e),
            Ok((rowids, _)) => {
                if rowids.len() == 0 {
                    return finish();
                }
                (
                    WriteState::Storing { alias, target: copy_target(&target) },
                    WriteAction::Delete { target, table, rowids },
                )
            },
        },
        (WriteState::UpdateRows { .. }, WriteEvent::Scanned(ScanReply::Failed(e))) => fail(
            convert_core_duckerror(e),
        ),
        (WriteState::DeleteRows { .. }, WriteEvent::Scanned(ScanReply::Failed(e))) => fail(
            convert_core_duckerror(e),
        ),
        (WriteState::UpdateRows { .. }, WriteEvent::Scanned(ScanReply::Trapped(t))) => fail(
            cli_types::Duckerror::Internal(t),
        ),
        (WriteState::DeleteRows { .. }, WriteEvent::Scanned(ScanReply::Trapped(t))) => fail(
            cli_types::Duckerror::Internal(t),
        ),
        (
            WriteState::CreateProbe { alias, table, target, columns },
            WriteEvent::Tables(Ok(tables)),
        ) => {
            if table_listed(&tables, table.as_str()) {
                finish()
            } else {
                create(alias, table, target, columns, true)
            }
        },
        (WriteState::CreateProbe { .. }, WriteEvent::Tables(Err(e))) => fail(
            cli_extension_duckerror(e),
        ),
        (WriteState::Storing { alias, target }, WriteEvent::Stored(Ok(_))) => at5_write_back(
            alias.as_str(),
            target,
            attached,
        ),
        (WriteState::Storing { .. }, WriteEvent::Stored(Err(e))) => fail(cli_extension_duckerror(e)),
        (WriteState::Creating { alias, target, .. }, WriteEvent::Stored(Ok(_))) => at5_write_back(
            alias.as_str(),
            target,
            attached,
        ),
        (WriteState::Creating { if_not_exists, .. }, WriteEvent::Stored(Err(e))) => {
            if if_not_exists && tells_present(extension_duckerror_message(&e)) {
                finish()
            } else {
                fail(cli_extension_duckerror(e))
            }
        },
        (WriteState::Serializing { path }, WriteEvent::Serialized(Ok(bytes))) => {
            let file = path.clone();
            (WriteState::Writing { path }, WriteAction::WriteFile { path: file, bytes })
        },
        (WriteState::Serializing { .. }, WriteEvent::Serialized(Err(e))) => {
            if matches!(e, extension_types::Duckerror::Unsupported(_)) {
                finish()
            } else {
                fail(cli_extension_duckerror(e))
            }
        },
        (WriteState::Writing { .. }, WriteEvent::Written(Ok(_))) => finish(),
        (WriteState::Writing { path }, WriteEvent::Written(Err(e))) => {
            let mut m = "AT5 write-back to ".to_owned();
            m.append(path.as_str());
            m.append(": ");
            m.append(e.as_str());
            fail(cli_types::Duckerror::Io(m))
        },
        (state, _) => (state, WriteAction::Ignore),
    }
}

// ---------------------------------------------------------------------------
// Laws
// ---------------------------------------------------------------------------

/// An `UPDATE` leaves every column that it does not assign as the scan found it, and
/// changes the length of no row.
pub proof fn law_update_keeps_unassigned_columns(
    row: Seq<ValueModel>,
    slots: Seq<(int, ValueModel)>,
    n: nat,
    k: int,
)
    requires
        n <= slots.len(),
        0 <= k < row.len(),
        forall|i: int| 0 <= i < n ==> (#[trigger] slots[i]).0 != k,
    ensures
        merged(row, slots, n).len() == row.len(),
        merged(row, slots, n)[k] == row[k],
    decreases n,
{
    lemma_merged_len(row, slots, n);
    if n > 0 {
        law_update_keeps_unassigned_columns(row, slots, (n - 1) as nat, k);
    }
}

proof fn lemma_merged_len(row: Seq<ValueModel>, slots: Seq<(int, ValueModel)>, n: nat)
    ensures
        merged(row, slots, n).len() == row.len(),
    decreases n,
{
    if n > 0 && n <= slots.len() {
        lemma_merged_len(row, slots, (n - 1) as nat);
    }
}

/// A column that an `UPDATE` assigns holds the value of its last assignment.
pub proof fn law_last_assignment_wins(
    row: Seq<ValueModel>,
    slots: Seq<(int, ValueModel)>,
    n: nat,
    i: int,
)
    requires
        n <= slots.len(),
        0 <= i < n,
        0 <= slots[i].0 < row.len(),
        forall|j: int| i < j < n ==> (#[trigger] slots[j]).0 != slots[i].0,
    ensures
        merged(row, slots, n)[slots[i].0] == slots[i].1,
    decreases n,
{
    lemma_merged_len(row, slots, (n - 1) as nat);
    if i < n - 1 {
        law_last_assignment_wins(row, slots, (n - 1) as nat, i);
    }
}

/// A change is written back to a file only where the alias is attached for writing,
/// does not persist by itself, and names that file.
pub proof fn law_write_back_only_where_needed(
    state: WriteState,
    event: WriteEvent,
    attached: Map<Seq<char>, AttachedForeignCatalog>,
    after: WriteState,
    action: WriteAction,
)
    requires
        write_next(state, event, attached, after, action),
        action is Serialize,
    ensures
        changed_alias(state) matches Some(alias) && attached.contains_key(alias)
            && !attached[alias].read_only && !attached[alias].writes_persist_directly
            && attached[alias].dsn_path is Some,
{
}

/// `CREATE TABLE IF NOT EXISTS` succeeds where the table is there already, whether the
/// extension lists it or only finds it when it is to make it.
pub proof fn law_create_if_not_exists_tolerates_a_table(
    state: WriteState,
    event: WriteEvent,
    attached: Map<Seq<char>, AttachedForeignCatalog>,
    after: WriteState,
    action: WriteAction,
)
    requires
        write_next(state, event, attached, after, action),
        match (state, event) {
            (WriteState::CreateProbe { table, .. }, WriteEvent::Tables(Ok(tables))) => has_table(
                views(tables@),
                table@,
            ),
            (
                WriteState::Creating { if_not_exists, .. },
                WriteEvent::Stored(Err(e)),
            ) => if_not_exists && says_present(message_of(e@)),
            _ => false,
        },
    ensures
        ends(after, action),
{
}

/// The alias that a write names.
pub open spec fn named_alias(route: WriteRoute) -> Option<Seq<char>> {
    match route {
        WriteRoute::Unsupported(_) => None,
        WriteRoute::Insert { alias, .. } => Some(alias@),
        WriteRoute::Update { alias, .. } => Some(alias@),
        WriteRoute::CreateTable { alias, .. } => Some(alias@),
        WriteRoute::Delete { alias, .. } => Some(alias@),
    }
}

/// Where an action goes.
pub open spec fn sent_to(action: WriteAction) -> Option<Target> {
    match action {
        WriteAction::TableColumns { target, .. } => Some(target),
        WriteAction::ListTables { target } => Some(target),
        WriteAction::Insert { target, .. } => Some(target),
        WriteAction::Update { target, .. } => Some(target),
        WriteAction::Delete { target, .. } => Some(target),
        WriteAction::Create { target, .. } => Some(target),
        WriteAction::Serialize { target } => Some(target),
        _ => None,
    }
}

/// Where the actions of a write that has begun go.
pub open spec fn bound_for(state: WriteState) -> Option<Target> {
    match state {
        WriteState::UpdateColumns { target, .. } => Some(target),
        WriteState::UpdateRows { target, .. } => Some(target),
        WriteState::DeleteColumns { target, .. } => Some(target),
        WriteState::DeleteRows { target, .. } => Some(target),
        WriteState::CreateProbe { target, .. } => Some(target),
        WriteState::Creating { target, .. } => Some(target),
        WriteState::Storing { target, .. } => Some(target),
        _ => None,
    }
}

/// The alias whose change an extension is making.
pub open spec fn changed_alias(state: WriteState) -> Option<Seq<char>> {
    match state {
        WriteState::Creating { alias, .. } => Some(alias@),
        WriteState::Storing { alias, .. } => Some(alias@),
        _ => None,
    }
}

/// A write to a catalog that is attached for reading only is refused before anything is
/// asked of its extension.
pub proof fn law_read_only_catalog_is_not_written(
    route: WriteRoute,
    attached: Map<Seq<char>, AttachedForeignCatalog>,
    after: WriteState,
    action: WriteAction,
    alias: Seq<char>,
)
    requires
        write_begins(route, attached, after, action),
        named_alias(route) == Some(alias),
        attached.contains_key(alias),
        attached[alias].read_only,
    ensures
        ends_with(after, action, read_only_alias(alias)),
{
}

/// A write begins with the extension and the handle that its alias was attached through.
pub proof fn law_write_begins_with_its_backend(
    route: WriteRoute,
    attached: Map<Seq<char>, AttachedForeignCatalog>,
    after: WriteState,
    action: WriteAction,
    alias: Seq<char>,
)
    requires
        write_begins(route, attached, after, action),
        named_alias(route) == Some(alias),
    ensures
        sent_to(action) matches Some(to) ==> attached.contains_key(alias) && to == target_of(
            attached[alias],
        ) && bound_for(after) == Some(to),
{
}

/// Every later step of a write goes where the write began.
pub proof fn law_write_stays_with_its_catalog(
    state: WriteState,
    event: WriteEvent,
    attached: Map<Seq<char>, AttachedForeignCatalog>,
    after: WriteState,
    action: WriteAction,
)
    requires
        write_next(state, event, attached, after, action),
    ensures
        sent_to(action) matches Some(to) ==> bound_for(state) == Some(to),
        bound_for(after) matches Some(to) ==> bound_for(state) == Some(to),
{
}

/// An `INSERT` is all or nothing: it reaches the extension only if every row fits
/// the named columns and holds nothing but literals.
pub proof fn law_insert_is_all_or_nothing(
    rows: Seq<Vec<ValueLiteral>>,
    columns: int,
    alias: Seq<char>,
    table: Seq<char>,
)
    ensures
        insert_error(rows, columns, alias, table) is None <==> forall|i: int|
            0 <= i < rows.len() ==> insert_row_error((#[trigger] rows[i])@, columns, alias, table) is None,
    decreases rows.len(),
{
    if rows.len() > 0 {
        law_insert_is_all_or_nothing(rows.drop_first(), columns, alias, table);
        if insert_error(rows, columns, alias, table) is None {
            assert forall|i: int| 0 <= i < rows.len() implies insert_row_error(
                (#[trigger] rows[i])@,
                columns,
                alias,
                table,
            ) is None by {
                if i > 0 {
                    assert(rows[i] == rows.drop_first()[i - 1]);
                }
            }
        } else if insert_row_error(rows[0]@, columns, alias, table) is None {
            let j = choose|j: int|
                0 <= j < rows.drop_first().len() && insert_row_error(
                    (#[trigger] rows.drop_first()[j])@,
                    columns,
                    alias,
                    table,
                ) is Some;
            assert(rows[j + 1] == rows.drop_first()[j]);
        }
    }
}

/// An `UPDATE` or `DELETE` hands over one row identifier per row that the scan
/// found, and an `UPDATE` one new row per identifier.
pub proof fn law_one_identifier_per_row(
    rows: Seq<Seq<ValueModel>>,
    rowid: int,
    slots: Seq<(int, ValueModel)>,
)
    ensures
        rowids_of(rows, rowid).len() == rows.len(),
        merged_rows(rows, slots).len() == rows.len(),
{
}

/// The rows to change are looked up with "SELECT * FROM <alias>.main.<table>"; with a
/// condition, exactly " WHERE " and the condition follow, and nothing else.
pub proof fn law_rows_are_looked_up_by_the_condition(
    alias: Seq<char>,
    table: Seq<char>,
    condition: Seq<char>,
)
    ensures
        prescan_sql(alias, table, None) == "SELECT * FROM "@ + alias + ".main."@ + table,
        prescan_sql(alias, table, Some(condition)) == prescan_sql(alias, table, None) + " WHERE "@
            + condition,
{
    let head = "SELECT * FROM "@ + alias + ".main."@ + table;
    assert(prescan_sql(alias, table, None) =~= head);
    assert(prescan_sql(alias, table, Some(condition)) =~= head + " WHERE "@ + condition);
}

/// UPDATE and DELETE ask for the rows of the table that meet the statement's own
/// condition, and for all rows where it has none.
pub proof fn law_change_scans_its_own_rows(
    state: WriteState,
    event: WriteEvent,
    attached: Map<Seq<char>, AttachedForeignCatalog>,
    after: WriteState,
    action: WriteAction,
)
    requires
        write_next(state, event, attached, after, action),
        action is Scan,
    ensures
        match (state, action) {
            (
                WriteState::UpdateColumns { alias, table, where_clause: Some(p), .. },
                WriteAction::Scan { sql },
            ) => sql@ == "SELECT * FROM "@ + alias@ + ".main."@ + table@ + " WHERE "@ + p@,
            (
                WriteState::UpdateColumns { alias, table, where_clause: None, .. },
                WriteAction::Scan { sql },
            ) => sql@ == "SELECT * FROM "@ + alias@ + ".main."@ + table@,
            (
                WriteState::DeleteColumns { alias, table, where_clause: Some(p), .. },
                WriteAction::Scan { sql },
            ) => sql@ == "SELECT * FROM "@ + alias@ + ".main."@ + table@ + " WHERE "@ + p@,
            (
                WriteState::DeleteColumns { alias, table, where_clause: None, .. },
                WriteAction::Scan { sql },
            ) => sql@ == "SELECT * FROM "@ + alias@ + ".main."@ + table@,
            _ => false,
        },
{
    match state {
        WriteState::UpdateColumns { alias, table, where_clause, .. } => {
            law_rows_are_looked_up_by_the_condition(
                alias@,
                table@,
                if where_clause is Some { where_clause->0@ } else { Seq::empty() },
            );
        },
        WriteState::DeleteColumns { alias, table, where_clause, .. } => {
            law_rows_are_looked_up_by_the_condition(
                alias@,
                table@,
                if where_clause is Some { where_clause->0@ } else { Seq::empty() },
            );
        },
        _ => {},
    }
}

/// The number in a cell, where it holds one.
pub open spec fn whole_number(v: ValueModel) -> Option<int> {
    match v {
        ValueModel::Int64(n) => Some(n as int),
        ValueModel::Int32(n) => Some(n as int),
        ValueModel::Int16(n) => Some(n as int),
        ValueModel::Int8(n) => Some(n as int),
        ValueModel::Uint64(n) => Some(n as int),
        ValueModel::Uint32(n) => Some(n as int),
        ValueModel::Uint16(n) => Some(n as int),
        ValueModel::Uint8(n) => Some(n as int),
        _ => None,
    }
}

/// A row identifier is the whole number in its cell, of any width, as long as it fits in
/// 64 signed bits; nothing else identifies a row.
pub proof fn law_row_identifier_is_the_number(v: ValueModel)
    ensures
        match rowid_of(v) {
            Ok(id) => match v {
                ValueModel::Int64(n) => id == n,
                ValueModel::Int32(n) => id == n,
                ValueModel::Int16(n) => id == n,
                ValueModel::Int8(n) => id == n,
                ValueModel::Uint64(n) => id == n,
                ValueModel::Uint32(n) => id == n,
                ValueModel::Uint16(n) => id == n,
                ValueModel::Uint8(n) => id == n,
                _ => false,
            },
            Err(_) => match v {
                ValueModel::Int64(_) => false,
                ValueModel::Int32(_) => false,
                ValueModel::Int16(_) => false,
                ValueModel::Int8(_) => false,
                ValueModel::Uint64(n) => n > 0x7fff_ffff_ffff_ffff,
                ValueModel::Uint32(_) => false,
                ValueModel::Uint16(_) => false,
                ValueModel::Uint8(_) => false,
                _ => true,
            },
        },
{
}

/// A scan is accepted exactly where each of its rows holds an identifier at the given
/// place, and then each row is named by the number that stands there.
pub proof fn law_rows_are_named_by_their_identifiers(
    rows: Seq<Seq<ValueModel>>,
    rowid: int,
    alias: Seq<char>,
    table: Seq<char>,
)
    requires
        rowid >= 0,
    ensures
        scan_error(rows, rowid, alias, table) is None <==> forall|i: int|
            0 <= i < rows.len() ==> rowid < (#[trigger] rows[i]).len() && (whole_number(rows[i][rowid])
                matches Some(n) && n <= 0x7fff_ffff_ffff_ffff),
        scan_error(rows, rowid, alias, table) is None ==> forall|i: int|
            0 <= i < rows.len() ==> whole_number(rows[i][rowid]) == Some(
                #[trigger] rowids_of(rows, rowid)[i] as int,
            ),
    decreases rows.len(),
{
    if rows.len() > 0 {
        let rest = rows.drop_first();
        law_rows_are_named_by_their_identifiers(rest, rowid, alias, table);
        assert(rows[0] == rows.first());
        assert forall|i: int| 0 <= i < rest.len() implies rest[i] == #[trigger] rows[i + 1] by {}
        if scan_error(rows, rowid, alias, table) is None {
            assert forall|i: int| 0 <= i < rows.len() implies rowid < (#[trigger] rows[i]).len() && (
            whole_number(rows[i][rowid]) matches Some(n) && n <= 0x7fff_ffff_ffff_ffff) by {
                if i > 0 {
                    assert(rest[i - 1] == rows[i]);
                }
            }
        } else if forall|i: int|
            0 <= i < rows.len() ==> rowid < (#[trigger] rows[i]).len() && (whole_number(rows[i][rowid])
                matches Some(n) && n <= 0x7fff_ffff_ffff_ffff) {
            assert(row_error(rows[0], rowid, alias, table) is None);
            assert forall|i: int| 0 <= i < rest.len() implies rowid < (#[trigger] rest[i]).len() && (
            whole_number(rest[i][rowid]) matches Some(n) && n <= 0x7fff_ffff_ffff_ffff) by {
                assert(rest[i] == rows[i + 1]);
            }
        }
    }
}

/// An identifier goes to the extension for each scanned row, in the order of the rows: the
/// number in the row's identifier cell.
pub proof fn law_changed_rows_are_those_scanned(
    state: WriteState,
    event: WriteEvent,
    attached: Map<Seq<char>, AttachedForeignCatalog>,
    after: WriteState,
    action: WriteAction,
    i: int,
)
    requires
        write_next(state, event, attached, after, action),
        action is Update || action is Delete,
    ensures
        match (state, event, action) {
            (
                WriteState::DeleteRows { table, rowid, .. },
                WriteEvent::Scanned(ScanReply::Rows(qr)),
                WriteAction::Delete { table: to, rowids, .. },
            ) => {
                &&& to@ == table@
                &&& rowids@.len() == qr@.rows.len()
                &&& 0 <= i < rowids@.len() ==> whole_number(qr@.rows[i][rowid as int]) == Some(
                    rowids@[i] as int,
                )
            },
            (
                WriteState::UpdateRows { table, rowid, .. },
                WriteEvent::Scanned(ScanReply::Rows(qr)),
                WriteAction::Update { table: to, rowids, rows, .. },
            ) => {
                &&& to@ == table@
                &&& rowids@.len() == qr@.rows.len()
                &&& rows@.len() == qr@.rows.len()
                &&& 0 <= i < rowids@.len() ==> whole_number(qr@.rows[i][rowid as int]) == Some(
                    rowids@[i] as int,
                )
            },
            _ => false,
        },
{
    match (state, event) {
        (
            WriteState::DeleteRows { alias, table, rowid, .. },
            WriteEvent::Scanned(ScanReply::Rows(qr)),
        ) => {
            law_rows_are_named_by_their_identifiers(qr@.rows, rowid as int, alias@, table@);
            let ids = rowids_of(qr@.rows, rowid as int);
            if 0 <= i < ids.len() {
                assert(whole_number(qr@.rows[i][rowid as int]) == Some(ids[i] as int));
            }
        },
        (
            WriteState::UpdateRows { alias, table, rowid, assigned, .. },
            WriteEvent::Scanned(ScanReply::Rows(qr)),
        ) => {
            law_rows_are_named_by_their_identifiers(qr@.rows, rowid as int, alias@, table@);
            let ids = rowids_of(qr@.rows, rowid as int);
            if 0 <= i < ids.len() {
                assert(whole_number(qr@.rows[i][rowid as int]) == Some(ids[i] as int));
            }
            if let WriteAction::Update { rows, .. } = action {
                assert(rows_of(rows@).len() == merged_rows(qr@.rows, slots_of(assigned@)).len());
            }
        },
        _ => {},
    }
}

/// An updated row is the scanned row with the assigned columns replaced: a column that is
/// assigned once holds the assigned value, and one that is not assigned what it held.
pub proof fn law_update_changes_what_it_assigns(
    state: WriteState,
    event: WriteEvent,
    attached: Map<Seq<char>, AttachedForeignCatalog>,
    after: WriteState,
    action: WriteAction,
    i: int,
    k: int,
)
    requires
        write_next(state, event, attached, after, action),
        action is Update,
    ensures
        match (state, event, action) {
            (
                WriteState::UpdateRows { assigned, .. },
                WriteEvent::Scanned(ScanReply::Rows(qr)),
                WriteAction::Update { rows, .. },
            ) => 0 <= i < qr@.rows.len() && 0 <= k < qr@.rows[i].len() ==> {
                let new = views(rows@[i]@);
                &&& new.len() == qr@.rows[i].len()
                &&& (forall|j: int| 0 <= j < assigned@.len() ==> (#[trigger] assigned@[j]).0 != k)
                    ==> new[k] == qr@.rows[i][k]
                &&& forall|j: int|
                    0 <= j < assigned@.len() && (#[trigger] assigned@[j]).0 == k && (forall|m: int|
                        j < m < assigned@.len() ==> (#[trigger] assigned@[m]).0 != k) ==> new[k]
                        == assigned@[j].1@
            },
            _ => false,
        },
{
    match (state, event, action) {
        (
            WriteState::UpdateRows { assigned, .. },
            WriteEvent::Scanned(ScanReply::Rows(qr)),
            WriteAction::Update { rows, .. },
        ) => {
            if 0 <= i < qr@.rows.len() && 0 <= k < qr@.rows[i].len() {
                let slots = slots_of(assigned@);
                let old_row = qr@.rows[i];
                assert(rows_of(rows@).len() == qr@.rows.len());
                assert(rows_of(rows@)[i] == merged(old_row, slots, slots.len()));
                assert(rows_of(rows@)[i] == views(rows@[i]@));
                lemma_merged_len(old_row, slots, slots.len());
                if forall|j: int| 0 <= j < assigned@.len() ==> (#[trigger] assigned@[j]).0 != k {
                    assert forall|j: int| 0 <= j < slots.len() implies (#[trigger] slots[j]).0 != k by {
                        assert(assigned@[j].0 != k);
                    }
                    law_update_keeps_unassigned_columns(old_row, slots, slots.len(), k);
                }
                assert forall|j: int|
                    0 <= j < assigned@.len() && (#[trigger] assigned@[j]).0 == k && (forall|m: int|
                        j < m < assigned@.len() ==> (#[trigger] assigned@[m]).0 != k) implies views(
                    rows@[i]@,
                )[k] == assigned@[j].1@ by {
                    assert(slots[j].0 == k);
                    assert forall|m: int| j < m < slots.len() implies (#[trigger] slots[m]).0
                        != slots[j].0 by {
                        assert(assigned@[m].0 != k);
                    }
                    law_last_assignment_wins(old_row, slots, slots.len(), j);
                }
            }
        },
        _ => {},
    }
}

/// A column is found by its name in any case, and the first of that name is taken.
pub proof fn law_column_is_found_by_name(columns: Seq<ColumnModel>, name: Seq<char>)
    ensures
        ({
            let slot = column_slot(columns, name);
            &&& 0 <= slot <= columns.len()
            &&& slot < columns.len() ==> lower(columns[slot].name) == lower(name)
            &&& forall|i: int|
                0 <= i < slot ==> lower((#[trigger] columns[i]).name) != lower(name)
        }),
    decreases columns.len(),
{
    if columns.len() > 0 && lower(columns[0].name) != lower(name) {
        let rest = columns.drop_first();
        law_column_is_found_by_name(rest, name);
        assert forall|i: int| 0 <= i < column_slot(columns, name) implies lower(
            (#[trigger] columns[i]).name,
        ) != lower(name) by {
            if i > 0 {
                assert(rest[i - 1] == columns[i]);
            }
        }
    }
}

/// UPDATE sets each named column to the value that is written for it.
pub proof fn law_assignment_goes_to_its_column(
    state: WriteState,
    event: WriteEvent,
    attached: Map<Seq<char>, AttachedForeignCatalog>,
    after: WriteState,
    action: WriteAction,
    i: int,
)
    requires
        write_next(state, event, attached, after, action),
        state is UpdateColumns,
        action is Scan,
    ensures
        match (state, event, after) {
            (
                WriteState::UpdateColumns { alias, table, target, assignments, .. },
                WriteEvent::Columns(Ok(columns)),
                WriteState::UpdateRows { alias: a, table: t, target: to, rowid, assigned },
            ) => {
                &&& a == alias
                &&& t == table
                &&& to == target
                &&& rowid < columns@.len()
                &&& lower(columns@[rowid as int].name@) == "rowid"@
                &&& assigned@.len() == assignments@.len()
                &&& 0 <= i < assigned@.len() ==> {
                    &&& assigned@[i].0 < columns@.len()
                    &&& lower(columns@[assigned@[i].0 as int].name@) == lower(assignments@[i].0@)
                    &&& literal_value(assignments@[i].1) == Ok::<ValueModel, Seq<char>>(
                        assigned@[i].1@,
                    )
                }
            },
            _ => false,
        },
{
    match (state, event, after) {
        (
            WriteState::UpdateColumns { assignments, .. },
            WriteEvent::Columns(Ok(columns)),
            WriteState::UpdateRows { rowid, assigned, .. },
        ) => {
            let cols = views(columns@);
            reveal_strlit("rowid");
            assert(lower("rowid"@) =~= "rowid"@);
            law_column_is_found_by_name(cols, "rowid"@);
            assert(cols[rowid as int] == columns@[rowid as int]@);
            let slots = assigned_slots(assignments@, cols);
            assert(slots_of(assigned@).len() == slots.len());
            if 0 <= i < assigned@.len() {
                assert(slots_of(assigned@)[i] == slots[i]);
                lemma_assignments_known(assignments@, cols, i);
                law_column_is_found_by_name(cols, assignments@[i].0@);
                assert(cols[slots[i].0] == columns@[slots[i].0]@);
            }
        },
        _ => {},
    }
}

proof fn lemma_assignments_known(
    assignments: Seq<(String, ValueLiteral)>,
    columns: Seq<ColumnModel>,
    i: int,
)
    requires
        assignment_error(assignments) is None,
        unknown_column(assignments, columns) is None,
        0 <= i < assignments.len(),
    ensures
        literal_value(assignments[i].1) is Ok,
        column_slot(columns, assignments[i].0@) < columns.len(),
    decreases assignments.len(),
{
    if i > 0 {
        lemma_assignments_known(assignments.drop_first(), columns, i - 1);
    }
}

/// INSERT hands over the values as they are written, row by row and place by place.
pub proof fn law_insert_sends_the_written_values(
    route: WriteRoute,
    attached: Map<Seq<char>, AttachedForeignCatalog>,
    after: WriteState,
    action: WriteAction,
    i: int,
    k: int,
)
    requires
        write_begins(route, attached, after, action),
        action is Insert,
    ensures
        match (route, action) {
            (
                WriteRoute::Insert { table, columns, rows, .. },
                WriteAction::Insert { table: t, rows: out, .. },
            ) => {
                &&& t@ == table@
                &&& out@.len() == rows@.len()
                &&& 0 <= i < rows@.len() ==> {
                    &&& out@[i]@.len() == rows@[i]@.len()
                    &&& columns@.len() > 0 ==> rows@[i]@.len() == columns@.len()
                    &&& 0 <= k < rows@[i]@.len() ==> match (rows@[i]@[k], out@[i]@[k]@) {
                        (ValueLiteral::Null, ValueModel::Null) => true,
                        (ValueLiteral::Integer(n), ValueModel::Int64(m)) => m == n,
                        (ValueLiteral::Float(x), ValueModel::Float64(y)) => x.bits == y.bits,
                        (ValueLiteral::Text(x), ValueModel::Text(y)) => x@ == y,
                        (ValueLiteral::Blob(x), ValueModel::Blob(y)) => x@ == y,
                        _ => false,
                    }
                }
            },
            _ => false,
        },
{
    match (route, action) {
        (
            WriteRoute::Insert { alias, table, columns, rows },
            WriteAction::Insert { rows: out, .. },
        ) => {
            let want = rows@.map_values(|row: Vec<ValueLiteral>| literal_values(row@));
            assert(rows_of(out@).len() == want.len());
            if 0 <= i < rows@.len() {
                assert(rows_of(out@)[i] == want[i]);
                assert(want[i] == literal_values(rows@[i]@));
                assert(rows_of(out@)[i] == views(out@[i]@));
                law_insert_is_all_or_nothing(rows@, columns@.len() as int, alias@, table@);
                assert(insert_row_error(rows@[i]@, columns@.len() as int, alias@, table@) is None);
                if 0 <= k < rows@[i]@.len() {
                    lemma_literals_known(rows@[i]@, k);
                    assert(views(out@[i]@)[k] == out@[i]@[k]@);
                    law_literal_is_its_value(rows@[i]@[k]);
                }
            }
        },
        _ => {},
    }
}

proof fn lemma_literals_known(row: Seq<ValueLiteral>, i: int)
    requires
        literal_error(row) is None,
        0 <= i < row.len(),
    ensures
        literal_value(row[i]) is Ok,
    decreases row.len(),
{
    if i > 0 {
        lemma_literals_known(row.drop_first(), i - 1);
    }
}

/// CREATE TABLE hands over the columns under their names, each with the type that its
/// text names.
pub proof fn law_create_declares_the_written_columns(
    alias: Seq<char>,
    table: Seq<char>,
    target: Target,
    columns: Seq<ColumnSpec>,
    if_not_exists: bool,
    after: WriteState,
    action: WriteAction,
    i: int,
)
    requires
        creates(alias, table, target, columns, if_not_exists, after, action),
    ensures
        match action {
            WriteAction::Create { target: to, table: t, columns: cols } => {
                &&& to == target
                &&& t@ == table
                &&& cols@.len() == columns.len()
                &&& 0 <= i < columns.len() ==> cols@[i].name@ == columns[i].name@ && sql_type_of(
                    columns[i].ty_name@,
                ) == Ok::<TypeModel, Seq<char>>(cols@[i].logical@)
            },
            WriteAction::Finish(Err(_)) => exists|j: int|
                0 <= j < columns.len() && sql_type_of((#[trigger] columns[j]).ty_name@) is Err,
            _ => false,
        },
{
    lemma_create_error(columns, alias, table);
    if let WriteAction::Create { columns: cols, .. } = action {
        assert(views(cols@).len() == created_columns(columns).len());
        if 0 <= i < columns.len() {
            assert(views(cols@)[i] == created_columns(columns)[i]);
            assert(views(cols@)[i] == cols@[i]@);
            assert(sql_type_of(columns[i].ty_name@) is Ok);
        }
    }
}

proof fn lemma_create_error(columns: Seq<ColumnSpec>, alias: Seq<char>, table: Seq<char>)
    ensures
        create_error(columns, alias, table) is None <==> forall|j: int|
            0 <= j < columns.len() ==> sql_type_of((#[trigger] columns[j]).ty_name@) is Ok,
    decreases columns.len(),
{
    if columns.len() > 0 {
        let rest = columns.drop_first();
        lemma_create_error(rest, alias, table);
        assert forall|j: int| 0 <= j < rest.len() implies rest[j] == #[trigger] columns[j + 1] by {}
        if forall|j: int| 0 <= j < columns.len() ==> sql_type_of((#[trigger] columns[j]).ty_name@) is Ok {
            assert(sql_type_of(columns[0].ty_name@) is Ok);
        }
        if create_error(columns, alias, table) is None {
            assert forall|j: int| 0 <= j < columns.len() implies sql_type_of(
                (#[trigger] columns[j]).ty_name@,
            ) is Ok by {
                if j > 0 {
                    assert(rest[j - 1] == columns[j]);
                }
            }
        }
    }
}

/// A change to a catalog that stands in a local file and does not persist by itself is
/// followed by bringing that very file up to date.
pub proof fn law_change_is_written_back(
    state: WriteState,
    attached: Map<Seq<char>, AttachedForeignCatalog>,
    after: WriteState,
    action: WriteAction,
    count: u64,
    alias: String,
    target: Target,
)
    requires
        write_next(state, WriteEvent::Stored(Ok(count)), attached, after, action),
        state == (WriteState::Storing { alias, target }) || exists|lenient: bool|
            state == (WriteState::Creating { alias, target, if_not_exists: lenient }),
        attached.contains_key(alias@),
        !attached[alias@].read_only,
    ensures
        match attached[alias@].dsn_path {
            Some(path) if !attached[alias@].writes_persist_directly => action == (
            WriteAction::Serialize { target }) && after == (WriteState::Serializing { path }),
            _ => action matches WriteAction::Finish(Ok(qr)) && qr@.columns.len() == 0 && qr@.rows.len()
                == 0,
        },
{
}

/// The bytes that the extension gives for a catalog are written to the file as they are.
/// An extension that cannot give them is no failure.
pub proof fn law_file_gets_the_given_bytes(
    state: WriteState,
    reply: Result<Vec<u8>, extension_types::Duckerror>,
    attached: Map<Seq<char>, AttachedForeignCatalog>,
    after: WriteState,
    action: WriteAction,
    path: String,
)
    requires
        state == (WriteState::Serializing { path }),
        write_next(state, WriteEvent::Serialized(reply), attached, after, action),
    ensures
        match reply {
            Ok(bytes) => action == (WriteAction::WriteFile { path, bytes }),
            Err(e) => match action {
                WriteAction::Finish(Ok(_)) => e is Unsupported,
                WriteAction::Finish(Err(err)) => !(e is Unsupported) && err@ == e@,
                _ => false,
            },
        },
{
}

/// What an extension refuses is refused to the caller, with the extension's own error.
pub proof fn law_extension_errors_are_handed_on(
    state: WriteState,
    event: WriteEvent,
    attached: Map<Seq<char>, AttachedForeignCatalog>,
    after: WriteState,
    action: WriteAction,
)
    requires
        write_next(state, event, attached, after, action),
        !(action is Ignore),
    ensures
        match event {
            WriteEvent::Columns(Err(e)) => action matches WriteAction::Finish(Err(err)) && err@ == e@,
            WriteEvent::Tables(Err(e)) => action matches WriteAction::Finish(Err(err)) && err@ == e@,
            WriteEvent::Scanned(ScanReply::Failed(e)) => action matches WriteAction::Finish(Err(err))
                && err@ == e@,
            WriteEvent::Scanned(ScanReply::Trapped(t)) => action matches WriteAction::Finish(Err(err))
                && err@ == ErrorModel::Internal(t@),
            WriteEvent::Stored(Err(e)) => state is Storing ==> (action matches WriteAction::Finish(
                Err(err),
            ) && err@ == e@),
            WriteEvent::Written(Err(e)) => state matches WriteState::Writing { path } && (
            action matches WriteAction::Finish(Err(err)) && err@ == ErrorModel::Io(
                "AT5 write-back to "@ + path@ + ": "@ + e@,
            )),
            _ => true,
        },
{
}

/// A message says that a table is there where it holds "already exists" or "duplicate", in
/// any case.
pub proof fn law_present_in_any_case(before: Seq<char>, said: Seq<char>, behind: Seq<char>)
    requires
        lower(said) == "already exists"@ || lower(said) == "duplicate"@,
    ensures
        says_present(before + said + behind),
        forall|msg: Seq<char>| #[trigger]
            says_present(msg) ==> exists|a: Seq<char>, b: Seq<char>|
                lower(msg) == #[trigger] (a + "already exists"@ + b) || lower(msg) == (a
                    + "duplicate"@ + b),
{
    let msg = before + said + behind;
    law_infix(lower(before), lower(said), lower(behind));
    assert(lower(msg) =~= lower(before) + lower(said) + lower(behind));
    assert forall|msg: Seq<char>| #[trigger] says_present(msg) implies exists|a: Seq<char>, b: Seq<char>|
        lower(msg) == #[trigger] (a + "already exists"@ + b) || lower(msg) == (a + "duplicate"@ + b) by {
        if has_infix(lower(msg), "already exists"@) {
            law_infix(Seq::empty(), "already exists"@, Seq::empty());
        } else {
            law_infix(Seq::empty(), "duplicate"@, Seq::empty());
            let (x, y) = choose|x: Seq<char>, y: Seq<char>| lower(msg) == #[trigger] (x + "duplicate"@ + y);
            let probe = x + "already exists"@ + y;
            assert(lower(msg) == probe || lower(msg) == (x + "duplicate"@ + y));
        }
    }
}

/// A catalog that is attached read-only, or not attached, is not written, and the error
/// names it.
pub proof fn law_write_target_is_the_attached_catalog(
    alias: Seq<char>,
    attached: Map<Seq<char>, AttachedForeignCatalog>,
)
    ensures
        match write_target(alias, attached) {
            Ok(target) => attached.contains_key(alias) && !attached[alias].read_only
                && target.extension == attached[alias].extension && target.handle
                == attached[alias].callback_handle && target.catalog
                == attached[alias].catalog_handle,
            Err(ErrorModel::Unsupported(text)) => attached.contains_key(alias)
                && attached[alias].read_only && text
                == "Operation not supported on @5 attached tables: "@ + (alias
                + " is attached READ_ONLY"@) + ". Use the native duckdb build if this pattern is required."@,
            Err(ErrorModel::Internal(text)) => !attached.contains_key(alias) && text == "alias "@ + alias
                + " disappeared before dispatch"@,
            Err(_) => false,
        },
{
}

/// The texts of the refusals: each says what was asked of which table, and what was wrong.
pub proof fn law_refusal_texts(
    columns: Seq<ColumnModel>,
    row: Seq<ValueModel>,
    rowid: int,
    alias: Seq<char>,
    table: Seq<char>,
    reason: Seq<char>,
)
    ensures
        unsupported_text(reason) == "Operation not supported on @5 attached tables: "@ + reason
            + ". Use the native duckdb build if this pattern is required."@,
        no_rowid_text(columns, alias, table) == "UPDATE/DELETE against "@ + (alias + "."@ + table)
            + " requires the storage extension to expose a 'rowid' column (ADR Amendment A5); the extension declared columns ["@
            + join_of(columns.map_values(|c: ColumnModel| c.name), ", "@) + "]"@,
        rowid >= row.len() ==> row_error(row, rowid, alias, table) == Some(
            ErrorModel::Internal(
                "pre-scan row for "@ + (alias + "."@ + table) + " lacks rowid column at index "@
                    + decimal_of(rowid) + " (row has "@ + decimal_of(row.len() as int) + " cells)"@,
            ),
        ),
        0 <= rowid < row.len() ==> match (rowid_of(row[rowid]), row_error(row, rowid, alias, table)) {
            (Ok(_), None) => true,
            (Err(why), Some(ErrorModel::Internal(text))) => text == "pre-scan row for "@ + (alias + "."@
                + table) + ": rowid column is not an integer ("@ + why + ")"@,
            _ => false,
        },
{
}

/// An INSERT is refused row by row: for a row that has not as many values as there are named
/// columns, and for a row with an expression. The first row that is refused counts.
pub proof fn law_insert_refusals(
    row: Vec<ValueLiteral>,
    rest: Seq<Vec<ValueLiteral>>,
    columns: int,
    alias: Seq<char>,
    table: Seq<char>,
)
    ensures
        ({
            let first = insert_error(seq![row] + rest, columns, alias, table);
            if columns > 0 && row@.len() != columns {
                first == Some(
                    ErrorModel::Invalidargument(
                        "INSERT into "@ + (alias + "."@ + table) + ": "@ + decimal_of(row@.len() as int)
                            + " values for "@ + decimal_of(columns) + " named columns"@,
                    ),
                )
            } else {
                match literal_error(row@) {
                    Some(reason) => first == Some(ErrorModel::Unsupported(unsupported_text(reason))),
                    None => first == insert_error(rest, columns, alias, table),
                }
            }
        }),
        insert_error(Seq::empty(), columns, alias, table) is None,
{
    let rows = seq![row] + rest;
    assert(rows[0] == row);
    assert(rows.drop_first() =~= rest);
}

/// A row of literals is refused for its first expression, and for nothing else.
pub proof fn law_first_expression_counts(lit: ValueLiteral, rest: Seq<ValueLiteral>)
    ensures
        lit matches ValueLiteral::Raw(expr) ==> literal_error(seq![lit] + rest) == Some(
            "unsupported expression `"@ + expr@
                + "` in VALUES tuple (only literals NULL/int/float/'string'/X'hex' are routed to the extension)"@,
        ),
        !(lit is Raw) ==> literal_error(seq![lit] + rest) == literal_error(rest),
        literal_error(Seq::empty()) is None,
{
    let row = seq![lit] + rest;
    assert(row[0] == lit);
    assert(row.drop_first() =~= rest);
}

/// An UPDATE is refused where the table has no identifier column, where a value is an
/// expression, or where a named column is not there, in this order.
pub proof fn law_update_refusals(
    assignments: Seq<(String, ValueLiteral)>,
    columns: Seq<ColumnModel>,
    alias: Seq<char>,
    table: Seq<char>,
    i: int,
)
    requires
        0 <= i < assignments.len(),
        forall|j: int| 0 <= j < assignments.len() ==> !((#[trigger] assignments[j]).1 is Raw),
        forall|j: int|
            0 <= j < i ==> column_slot(columns, (#[trigger] assignments[j]).0@) < columns.len(),
        column_slot(columns, assignments[i].0@) >= columns.len(),
    ensures
        column_slot(columns, "rowid"@) < columns.len() ==> update_error(assignments, columns, alias, table)
            == Some(
            ErrorModel::Invalidargument(
                "UPDATE "@ + (alias + "."@ + table) + ": column '"@ + assignments[i].0@
                    + "' is not declared by the storage extension"@,
            ),
        ),
        column_slot(columns, "rowid"@) >= columns.len() ==> update_error(
            assignments,
            columns,
            alias,
            table,
        ) == Some(ErrorModel::Unsupported(no_rowid_text(columns, alias, table))),
{
    lemma_no_assignment_error(assignments);
    lemma_unknown_is(assignments, columns, i);
}

proof fn lemma_no_assignment_error(assignments: Seq<(String, ValueLiteral)>)
    requires
        forall|j: int| 0 <= j < assignments.len() ==> !((#[trigger] assignments[j]).1 is Raw),
    ensures
        assignment_error(assignments) is None,
    decreases assignments.len(),
{
    if assignments.len() > 0 {
        let rest = assignments.drop_first();
        assert(!(assignments[0].1 is Raw));
        assert forall|j: int| 0 <= j < rest.len() implies !((#[trigger] rest[j]).1 is Raw) by {
            assert(!(assignments[j + 1].1 is Raw));
        }
        lemma_no_assignment_error(rest);
    }
}

proof fn lemma_unknown_is(
    assignments: Seq<(String, ValueLiteral)>,
    columns: Seq<ColumnModel>,
    i: int,
)
    requires
        0 <= i < assignments.len(),
        forall|j: int|
            0 <= j < i ==> column_slot(columns, (#[trigger] assignments[j]).0@) < columns.len(),
        column_slot(columns, assignments[i].0@) >= columns.len(),
    ensures
        unknown_column(assignments, columns) == Some(assignments[i].0@),
    decreases i,
{
    if i > 0 {
        let rest = assignments.drop_first();
        assert(column_slot(columns, assignments[0].0@) < columns.len());
        assert forall|j: int| 0 <= j < i - 1 implies column_slot(columns, (#[trigger] rest[j]).0@)
            < columns.len() by {
            assert(column_slot(columns, assignments[j + 1].0@) < columns.len());
        }
        assert(rest[i - 1] == assignments[i]);
        lemma_unknown_is(rest, columns, i - 1);
    }
}

/// A value that identifies no row is shown under the name of its kind.
pub proof fn law_refused_identifier_is_shown(v: ValueModel)
    ensures
        match v {
            ValueModel::Null => arm_text(v) == "Duckvalue::Null"@,
            ValueModel::Boolean(b) => arm_text(v) == "Duckvalue::Boolean("@ + (if b {
                "true"@
            } else {
                "false"@
            }) + ")"@,
            ValueModel::Text(s) => arm_text(v) == "Duckvalue::Text("@ + debug_text(s) + ")"@,
            ValueModel::Float64(x) => arm_text(v) == "Duckvalue::Float64("@ + x.literal + ")"@,
            ValueModel::Float32(x) => arm_text(v) == "Duckvalue::Float32("@ + x.literal + ")"@,
            ValueModel::Uuid(u) => arm_text(v) == "Duckvalue::Uuid(Uuidvalue { hi: "@ + decimal_of(
                u.hi as int,
            ) + ", lo: "@ + decimal_of(u.lo as int) + " })"@,
            ValueModel::Timestamp(n) => arm_text(v) == "Duckvalue::Timestamp("@ + decimal_of(n as int) + ")"@,
            ValueModel::Date(n) => arm_text(v) == "Duckvalue::Date("@ + decimal_of(n as int) + ")"@,
            ValueModel::Time(n) => arm_text(v) == "Duckvalue::Time("@ + decimal_of(n as int) + ")"@,
            ValueModel::Timestamptz(n) => arm_text(v) == "Duckvalue::Timestamptz("@ + decimal_of(n as int) + ")"@,
            _ => true,
        },
        match v {
            ValueModel::Int64(_) | ValueModel::Int32(_) | ValueModel::Int16(_) | ValueModel::Int8(_) => {
                rowid_of(v) is Ok
            },
            ValueModel::Uint32(_) | ValueModel::Uint16(_) | ValueModel::Uint8(_) => rowid_of(v) is Ok,
            ValueModel::Uint64(n) => n > 0x7fff_ffff_ffff_ffff ==> rowid_of(v) == Err::<i64, Seq<char>>(
                "u64 rowid "@ + decimal_of(n as int) + " overflows i64"@,
            ),
            _ => rowid_of(v) == Err::<i64, Seq<char>>(
                "rowid duckvalue arm "@ + arm_text(v) + " is not an integer"@,
            ),
        },
{
}

/// A table is there where one of the listed tables has its name, in any case.
pub proof fn law_table_is_found_by_name(tables: Seq<Seq<char>>, listed: Seq<char>, table: Seq<char>)
    ensures
        has_table(tables.push(listed), table) <==> has_table(tables, table) || lower(listed) == lower(
            table,
        ),
        !has_table(Seq::empty(), table),
{
    let all = tables.push(listed);
    if has_table(tables, table) {
        let i = choose|i: int| 0 <= i < tables.len() && lower(#[trigger] tables[i]) == lower(table);
        assert(all[i] == tables[i]);
    }
    if lower(listed) == lower(table) {
        assert(lower(all[tables.len() as int]) == lower(table));
    }
    if has_table(all, table) {
        let i = choose|i: int| 0 <= i < all.len() && lower(#[trigger] all[i]) == lower(table);
        if i < tables.len() {
            assert(tables[i] == all[i]);
        }
    }
}

/// A write keeps what its statement says until it is needed: the assignments, the condition
/// and the columns, for the alias and the table that it names.
pub proof fn law_write_keeps_its_statement(
    route: WriteRoute,
    attached: Map<Seq<char>, AttachedForeignCatalog>,
    after: WriteState,
    action: WriteAction,
)
    requires
        write_begins(route, attached, after, action),
    ensures
        match (route, action) {
            (WriteRoute::Unsupported(reason), WriteAction::Finish(Err(e))) => e@
                == ErrorModel::Unsupported(unsupported_text(reason@)),
            (_, WriteAction::Finish(Err(e))) => !(route is Unsupported),
            (
                WriteRoute::Update { alias, table, assignments, where_clause },
                WriteAction::TableColumns { table: t, target },
            ) => t == table && after == (WriteState::UpdateColumns {
                alias,
                table,
                target,
                assignments,
                where_clause,
            }),
            (
                WriteRoute::Delete { alias, table, where_clause },
                WriteAction::TableColumns { table: t, target },
            ) => t == table && after == (WriteState::DeleteColumns { alias, table, target, where_clause }),
            (
                WriteRoute::CreateTable { alias, table, definitions, if_not_exists },
                WriteAction::ListTables { target },
            ) => if_not_exists && after == (WriteState::CreateProbe {
                alias,
                table,
                target,
                columns: definitions,
            }),
            (
                WriteRoute::CreateTable { alias, table, definitions, if_not_exists },
                WriteAction::Create { target, table: t, columns },
            ) => !if_not_exists && t@ == table@ && columns@.len() == definitions@.len() && (after matches
                WriteState::Creating { alias: a, target: to, if_not_exists: lenient } && a@ == alias@
                && to == target && !lenient),
            (
                WriteRoute::Insert { alias, table, .. },
                WriteAction::Insert { target, table: t, .. },
            ) => t@ == table@ && after == (WriteState::Storing { alias, target }),
            _ => false,
        },
{
    if let WriteRoute::CreateTable { definitions, .. } = route {
        if let WriteAction::Create { columns, .. } = action {
            assert(views(columns@).len() == created_columns(definitions@).len());
        }
    }
}

/// An event that belongs to the state is answered, and no other is.
pub proof fn law_write_answers_its_events(
    state: WriteState,
    event: WriteEvent,
    attached: Map<Seq<char>, AttachedForeignCatalog>,
    after: WriteState,
    action: WriteAction,
)
    requires
        write_next(state, event, attached, after, action),
    ensures
        action is Ignore <==> !(match (state, event) {
            (WriteState::UpdateColumns { .. }, WriteEvent::Columns(_)) => true,
            (WriteState::DeleteColumns { .. }, WriteEvent::Columns(_)) => true,
            (WriteState::UpdateRows { .. }, WriteEvent::Scanned(_)) => true,
            (WriteState::DeleteRows { .. }, WriteEvent::Scanned(_)) => true,
            (WriteState::CreateProbe { .. }, WriteEvent::Tables(_)) => true,
            (WriteState::Storing { .. }, WriteEvent::Stored(_)) => true,
            (WriteState::Creating { .. }, WriteEvent::Stored(_)) => true,
            (WriteState::Serializing { .. }, WriteEvent::Serialized(_)) => true,
            (WriteState::Writing { .. }, WriteEvent::Written(_)) => true,
            _ => false,
        }),
        action is Ignore ==> after == state,
{
}

/// A write ends well only where there is nothing left to do: no row to change, a table that
/// is there already, or a change that was stored and needs no file, or whose file is
/// written or cannot be had.
pub proof fn law_write_ends_when_done(
    state: WriteState,
    event: WriteEvent,
    attached: Map<Seq<char>, AttachedForeignCatalog>,
    after: WriteState,
    action: WriteAction,
)
    requires
        write_next(state, event, attached, after, action),
        action matches WriteAction::Finish(Ok(_)),
    ensures
        match (state, event) {
            (WriteState::UpdateRows { .. }, WriteEvent::Scanned(ScanReply::Rows(qr))) => {
                qr@.rows.len() == 0
            },
            (WriteState::DeleteRows { .. }, WriteEvent::Scanned(ScanReply::Rows(qr))) => {
                qr@.rows.len() == 0
            },
            (WriteState::CreateProbe { table, .. }, WriteEvent::Tables(Ok(tables))) => has_table(
                views(tables@),
                table@,
            ),
            (WriteState::Creating { if_not_exists, .. }, WriteEvent::Stored(Err(e))) => if_not_exists
                && says_present(message_of(e@)),
            (WriteState::Storing { alias, .. }, WriteEvent::Stored(Ok(_))) => !attached.contains_key(
                alias@,
            ) || attached[alias@].read_only || attached[alias@].writes_persist_directly
                || attached[alias@].dsn_path is None,
            (WriteState::Creating { alias, .. }, WriteEvent::Stored(Ok(_))) => !attached.contains_key(
                alias@,
            ) || attached[alias@].read_only || attached[alias@].writes_persist_directly
                || attached[alias@].dsn_path is None,
            (WriteState::Serializing { .. }, WriteEvent::Serialized(Err(e))) => e is Unsupported,
            (WriteState::Writing { .. }, WriteEvent::Written(Ok(_))) => true,
            _ => false,
        },
{
}

/// A table that is not there yet is created, with the name and the columns of the statement,
/// and a later complaint that it is there is tolerated.
pub proof fn law_missing_table_is_created(
    state: WriteState,
    event: WriteEvent,
    attached: Map<Seq<char>, AttachedForeignCatalog>,
    after: WriteState,
    action: WriteAction,
)
    requires
        write_next(state, event, attached, after, action),
        action is Create,
    ensures
        match (state, event, action) {
            (
                WriteState::CreateProbe { alias, table, target, columns },
                WriteEvent::Tables(Ok(tables)),
                WriteAction::Create { target: to, table: t, columns: cols },
            ) => !has_table(views(tables@), table@) && to == target && t@ == table@ && cols@.len()
                == columns@.len() && (after matches WriteState::Creating {
                alias: a,
                target: kept,
                if_not_exists,
            } && a@ == alias@ && kept == target && if_not_exists),
            _ => false,
        },
{
    if let WriteState::CreateProbe { columns, .. } = state {
        if let WriteAction::Create { columns: cols, .. } = action {
            assert(views(cols@).len() == created_columns(columns@).len());
        }
    }
}

/// A change stays with its alias and its table from the first step to the last, and a file
/// with its path.
pub proof fn law_write_stays_with_its_alias(
    state: WriteState,
    event: WriteEvent,
    attached: Map<Seq<char>, AttachedForeignCatalog>,
    after: WriteState,
    action: WriteAction,
)
    requires
        write_next(state, event, attached, after, action),
        !(action is Finish),
        !(action is Ignore),
    ensures
        match (state, after) {
            (
                WriteState::UpdateColumns { alias, table, target, .. },
                WriteState::UpdateRows { alias: a, table: t, target: to, .. },
            ) => a == alias && t == table && to == target,
            (
                WriteState::DeleteColumns { alias, table, target, .. },
                WriteState::DeleteRows { alias: a, table: t, target: to, rowid },
            ) => a == alias && t == table && to == target && (event matches WriteEvent::Columns(
                Ok(columns),
            ) && rowid < columns@.len() && lower(columns@[rowid as int].name@) == "rowid"@),
            (
                WriteState::UpdateRows { alias, target, .. },
                WriteState::Storing { alias: a, target: to },
            ) => a == alias && to == target,
            (
                WriteState::DeleteRows { alias, target, .. },
                WriteState::Storing { alias: a, target: to },
            ) => a == alias && to == target,
            (
                WriteState::CreateProbe { alias, target, .. },
                WriteState::Creating { alias: a, target: to, .. },
            ) => a@ == alias@ && to == target,
            (WriteState::Storing { .. }, WriteState::Serializing { .. }) => true,
            (WriteState::Creating { .. }, WriteState::Serializing { .. }) => true,
            (WriteState::Serializing { path }, WriteState::Writing { path: p }) => p == path,
            _ => false,
        },
{
    if let WriteState::DeleteColumns { .. } = state {
        if let WriteEvent::Columns(Ok(columns)) = event {
            let cols = views(columns@);
            reveal_strlit("rowid");
            assert(lower("rowid"@) =~= "rowid"@);
            law_column_is_found_by_name(cols, "rowid"@);
            let slot = column_slot(cols, "rowid"@);
            if slot < cols.len() {
                assert(cols[slot] == columns@[slot]@);
                assert(columns@.len() == columns.len());
            }
        }
    }
}

} // verus!
