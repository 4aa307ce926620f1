//! Text renderings of values and of query results.
use crate::core_types::{Duckvalue, QueryResult};
use crate::model::{rows_of, views, Decimalvalue, ValueModel};
use crate::sqltype::{all_digits, number_of};
use crate::text::{
    chars_of, decimal_i128, decimal_of, decimal_u128, digits_of, is_digit, join, join_of,
    law_digits_write_the_number, lower, same_text_ignoring_case, text_of,
};
use vstd::prelude::*;

verus! {

/// What `{:?}` prints for a text: the text in double quotes, with the escapes that
/// `std` gives to control characters, quotes, backslashes and unprintable characters.
pub uninterp spec fn debug_text(s: Seq<char>) -> Seq<char>;

/// `std::fmt::Debug` for `str`. The contract says that what is printed depends on
/// the text alone; which characters are escaped is left unsaid.
#[verifier::external_body]
pub(crate) fn quote_debug(s: &str) -> (r: String)
    ensures
        r@ == debug_text(s@),
{
    format!("{s:?}")
}

pub open spec fn bool_text(b: bool) -> Seq<char> {
    if b {
        "true"@
    } else {
        "false"@
    }
}

pub(crate) fn render_bool(b: bool) -> (r: String)
    ensures
        r@ == bool_text(b),
{
    if b {
        "true".to_owned()
    } else {
        "false".to_owned()
    }
}

// ---------------------------------------------------------------------------
// 128-bit values
// ---------------------------------------------------------------------------

/// The signed 128-bit integer with the given halves.
pub open spec fn hugeint(lower: u64, upper: i64) -> int {
    upper * 0x1_0000_0000_0000_0000 + lower
}

/// The unsigned 128-bit integer with the given halves.
pub open spec fn uhugeint(lower: u64, upper: u64) -> int {
    upper * 0x1_0000_0000_0000_0000 + lower
}

/// The two's-complement 128-bit integer whose bits are the given halves.
pub open spec fn int128(lower: u64, upper: u64) -> int {
    if upper < 0x8000_0000_0000_0000 {
        uhugeint(lower, upper)
    } else {
        uhugeint(lower, upper) - 0x1_0000_0000_0000_0000 * 0x1_0000_0000_0000_0000
    }
}

pub fn format_hugeint(lower: u64, upper: i64) -> (r: String)
    ensures
        r@ == decimal_of(hugeint(lower, upper)),
{
    decimal_i128(upper as i128 * 0x1_0000_0000_0000_0000 + lower as i128)
}

pub fn format_uhugeint(lower: u64, upper: u64) -> (r: String)
    ensures
        r@ == decimal_of(uhugeint(lower, upper)),
{
    decimal_u128(upper as u128 * 0x1_0000_0000_0000_0000 + lower as u128)
}

/// `n` zeros.
pub open spec fn zeros(n: nat) -> Seq<char> {
    Seq::new(n, |i: int| '0')
}

/// Digits filled up with zeros on the left to more than `scale` digits, so that one
/// stands before the decimal point.
pub open spec fn padded(ds: Seq<char>, scale: nat) -> Seq<char> {
    if ds.len() > scale {
        ds
    } else {
        zeros((scale + 1 - ds.len()) as nat) + ds
    }
}

/// An unscaled number written with `scale` digits behind the decimal point; without
/// a point when `scale` is zero.
pub open spec fn decimal_text(raw: int, scale: nat) -> Seq<char> {
    let magnitude = digits_of((if raw < 0 { -raw } else { raw }) as nat);
    let ds = padded(magnitude, scale);
    let body = if scale == 0 {
        magnitude
    } else {
        ds.take(ds.len() - scale) + "."@ + ds.skip(ds.len() - scale)
    };
    if raw < 0 {
        "-"@ + body
    } else {
        body
    }
}

/// A DECIMAL. The width does not show in the rendering.
pub fn format_decimal(lower: u64, upper: u64, _width: u8, scale: u8) -> (r: String)
    ensures
        r@ == decimal_text(int128(lower, upper), scale as nat),
{
    let bits: u128 = upper as u128 * 0x1_0000_0000_0000_0000 + lower as u128;
    let neg: bool = upper >= 0x8000_0000_0000_0000;
    let magnitude: u128 = if neg {
        (u128::MAX - bits) + 1
    } else {
        bits
    };
    let digits = decimal_u128(magnitude);
    let scale: usize = scale as usize;
    let body: String = if scale == 0 {
        digits
    } else {
        let mut cs: Vec<char> = Vec::new();
        let ds = chars_of(digits.as_str());
        let count: usize = ds.len();
        let mut i: usize = count;
        while i <= scale
            invariant
                count <= i,
                i <= scale + 1 || i == count,
                cs@ == zeros((i - count) as nat),
                scale <= 255,
            decreases scale + 1 - i,
        {
            cs.push('0');
            i += 1;
            assert(cs@ =~= zeros((i - count) as nat));
        }
        let mut j: usize = 0;
        let ghost pad = cs@;
        while j < ds.len()
            invariant
                j <= ds@.len(),
                cs@ == pad + ds@.take(j as int),
            decreases ds@.len() - j,
        {
            cs.push(ds[j]);
            j += 1;
            assert(cs@ =~= pad + ds@.take(j as int));
        }
        assert(ds@.take(ds@.len() as int) =~= ds@);
        assert(cs@ =~= padded(ds@, scale as nat));
        let point: usize = cs.len() - scale;
        let mut out = text_of(&cs, 0, point);
        out.append(".");
        out.append(text_of(&cs, point, cs.len()).as_str());
        out
    };
    if neg {
        let mut out = "-".to_owned();
        out.append(body.as_str());
        out
    } else {
        body
    }
}

pub open spec fn hex_char(d: u64) -> char {
    if d < 10 {
        ('0' as u64 + d) as char
    } else {
        ('a' as u64 + (d - 10)) as char
    }
}

/// The `i`-th of the 16 hexadecimal digits of `half`, counted from the left.
pub open spec fn nibble(half: u64, i: int) -> u64 {
    (half >> ((60 - 4 * i) as u64)) & 15
}

/// The 32 hexadecimal digits of a UUID.
pub open spec fn uuid_hex(hi: u64, lo: u64) -> Seq<char> {
    Seq::new(
        32,
        |i: int|
            if i < 16 {
                hex_char(nibble(hi, i))
            } else {
                hex_char(nibble(lo, i - 16))
            },
    )
}

/// The canonical 8-4-4-4-12 form of a UUID.
pub open spec fn uuid_text(hi: u64, lo: u64) -> Seq<char> {
    let h = uuid_hex(hi, lo);
    h.subrange(0, 8) + "-"@ + h.subrange(8, 12) + "-"@ + h.subrange(12, 16) + "-"@ + h.subrange(
        16,
        20,
    ) + "-"@ + h.subrange(20, 32)
}

fn hex_digit(half: u64, i: u64) -> (r: char)
    requires
        i < 16,
    ensures
        r == hex_char(nibble(half, i as int)),
{
    let shift: u64 = 60 - 4 * i;
    let d: u64 = (half >> shift) & 15;
    assert(d <= 15) by (bit_vector)
        requires
            d == (half >> shift) & 15,
    ;
    if d < 10 {
        (48 + d as u8) as char
    } else {
        (87 + d as u8) as char
    }
}

pub fn format_uuid(hi: u64, lo: u64) -> (r: String)
    ensures
        r@ == uuid_text(hi, lo),
{
    let mut h: Vec<char> = Vec::new();
    let mut i: u64 = 0;
    while i < 32
        invariant
            i <= 32,
            h@ == uuid_hex(hi, lo).take(i as int),
        decreases 32 - i,
    {
        if i < 16 {
            h.push(hex_digit(hi, i));
        } else {
            h.push(hex_digit(lo, i - 16));
        }
        i += 1;
        assert(h@ =~= uuid_hex(hi, lo).take(i as int));
    }
    assert(h@ =~= uuid_hex(hi, lo));
    let mut out = text_of(&h, 0, 8);
    out.append("-");
    out.append(text_of(&h, 8, 12).as_str());
    out.append("-");
    out.append(text_of(&h, 12, 16).as_str());
    out.append("-");
    out.append(text_of(&h, 16, 20).as_str());
    out.append("-");
    out.append(text_of(&h, 20, 32).as_str());
    out
}

// ---------------------------------------------------------------------------
// Cells
// ---------------------------------------------------------------------------

/// The text of a cell: NULL is empty, a complex value is its JSON.
pub open spec fn cell_text(v: ValueModel) -> Seq<char> {
    match v {
        ValueModel::Null => Seq::<char>::empty(),
        ValueModel::Boolean(b) => bool_text(b),
        ValueModel::Int64(n) => decimal_of(n as int),
        ValueModel::Uint64(n) => decimal_of(n as int),
        ValueModel::Int32(n) => decimal_of(n as int),
        ValueModel::Timestamp(n) => decimal_of(n as int),
        ValueModel::Int8(n) => decimal_of(n as int),
        ValueModel::Int16(n) => decimal_of(n as int),
        ValueModel::Uint8(n) => decimal_of(n as int),
        ValueModel::Uint16(n) => decimal_of(n as int),
        ValueModel::Uint32(n) => decimal_of(n as int),
        ValueModel::Date(n) => decimal_of(n as int),
        ValueModel::Time(n) => decimal_of(n as int),
        ValueModel::Timestamptz(n) => decimal_of(n as int),
        ValueModel::Float64(f) => f.text,
        ValueModel::Float32(f) => f.text,
        ValueModel::Text(s) => s,
        ValueModel::Blob(b) => "<blob "@ + decimal_of(b.len() as int) + " bytes>"@,
        ValueModel::Decimal(d) => decimal_text(int128(d.lower, d.upper), d.scale as nat),
        ValueModel::Interval(iv) => decimal_of(iv.months as int) + " months "@ + decimal_of(iv.days as int) + " days "@ + decimal_of(iv.micros as int) + " us"@,
        ValueModel::Uuid(u) => uuid_text(u.hi, u.lo),
        ValueModel::Hugeint(h) => decimal_of(hugeint(h.lower, h.upper)),
        ValueModel::Uhugeint(h) => decimal_of(uhugeint(h.lower, h.upper)),
        ValueModel::Complex(c) => c.json,
    }
}

pub fn spi_value_text(v: &Duckvalue) -> (r: String)
    ensures
        r@ == cell_text(v@),
{
    match v {
        Duckvalue::Null => String::new(),
        Duckvalue::Boolean(b) => render_bool(*b),
        Duckvalue::Int64(n) => decimal_i128(*n as i128),
        Duckvalue::Uint64(n) => decimal_u128(*n as u128),
        Duckvalue::Int32(n) => decimal_i128(*n as i128),
        Duckvalue::Timestamp(n) => decimal_i128(*n as i128),
        Duckvalue::Int8(n) => decimal_i128(*n as i128),
        Duckvalue::Int16(n) => decimal_i128(*n as i128),
        Duckvalue::Uint8(n) => decimal_u128(*n as u128),
        Duckvalue::Uint16(n) => decimal_u128(*n as u128),
        Duckvalue::Uint32(n) => decimal_u128(*n as u128),
        Duckvalue::Date(n) => decimal_i128(*n as i128),
        Duckvalue::Time(n) => decimal_i128(*n as i128),
        Duckvalue::Timestamptz(n) => decimal_i128(*n as i128),
        Duckvalue::Float64(f) => f.text.clone(),
        Duckvalue::Float32(f) => f.text.clone(),
        Duckvalue::Text(s) => s.clone(),
        Duckvalue::Blob(b) => {
            let mut out = "<blob ".to_owned();
            out.append(decimal_u128(b.len() as u128).as_str());
            out.append(" bytes>");
            out
        },
        Duckvalue::Decimal(d) => format_decimal(d.lower, d.upper, d.width, d.scale),
        Duckvalue::Interval(iv) => {
            let mut out = decimal_i128(iv.months as i128);
            out.append(" months ");
            out.append(decimal_i128(iv.days as i128).as_str());
            out.append(" days ");
            out.append(decimal_i128(iv.micros as i128).as_str());
            out.append(" us");
            out
        },
        Duckvalue::Uuid(u) => format_uuid(u.hi, u.lo),
        Duckvalue::Hugeint(h) => format_hugeint(h.lower, h.upper),
        Duckvalue::Uhugeint(h) => format_uhugeint(h.lower, h.upper),
        Duckvalue::Complex(c) => c.json.clone(),
    }
}

/// The diagnostic label of a value: NULL is spelled out, text is quoted.
pub open spec fn label_text(v: ValueModel) -> Seq<char> {
    match v {
        ValueModel::Null => "NULL"@,
        ValueModel::Boolean(b) => bool_text(b),
        ValueModel::Int64(n) => decimal_of(n as int),
        ValueModel::Uint64(n) => decimal_of(n as int),
        ValueModel::Int32(n) => decimal_of(n as int),
        ValueModel::Timestamp(n) => decimal_of(n as int),
        ValueModel::Int8(n) => decimal_of(n as int),
        ValueModel::Int16(n) => decimal_of(n as int),
        ValueModel::Uint8(n) => decimal_of(n as int),
        ValueModel::Uint16(n) => decimal_of(n as int),
        ValueModel::Uint32(n) => decimal_of(n as int),
        ValueModel::Date(n) => decimal_of(n as int),
        ValueModel::Time(n) => decimal_of(n as int),
        ValueModel::Timestamptz(n) => decimal_of(n as int),
        ValueModel::Float64(f) => f.text,
        ValueModel::Float32(f) => f.text,
        ValueModel::Text(s) => debug_text(s),
        ValueModel::Blob(b) => "<blob "@ + decimal_of(b.len() as int) + " bytes>"@,
        ValueModel::Decimal(d) => decimal_text(int128(d.lower, d.upper), d.scale as nat),
        ValueModel::Interval(iv) => decimal_of(iv.months as int) + "mon "@ + decimal_of(iv.days as int) + "d "@ + decimal_of(iv.micros as int) + "us"@,
        ValueModel::Uuid(u) => uuid_text(u.hi, u.lo),
        ValueModel::Hugeint(h) => decimal_of(hugeint(h.lower, h.upper)),
        ValueModel::Uhugeint(h) => decimal_of(uhugeint(h.lower, h.upper)),
        ValueModel::Complex(c) => c.type_expr + ":"@ + c.json,
    }
}

pub fn describe_core_duckvalue(v: &Duckvalue) -> (r: String)
    ensures
        r@ == label_text(v@),
{
    match v {
        Duckvalue::Null => "NULL".to_owned(),
        Duckvalue::Boolean(b) => render_bool(*b),
        Duckvalue::Int64(n) => decimal_i128(*n as i128),
        Duckvalue::Uint64(n) => decimal_u128(*n as u128),
        Duckvalue::Int32(n) => decimal_i128(*n as i128),
        Duckvalue::Timestamp(n) => decimal_i128(*n as i128),
        Duckvalue::Int8(n) => decimal_i128(*n as i128),
        Duckvalue::Int16(n) => decimal_i128(*n as i128),
        Duckvalue::Uint8(n) => decimal_u128(*n as u128),
        Duckvalue::Uint16(n) => decimal_u128(*n as u128),
        Duckvalue::Uint32(n) => decimal_u128(*n as u128),
        Duckvalue::Date(n) => decimal_i128(*n as i128),
        Duckvalue::Time(n) => decimal_i128(*n as i128),
        Duckvalue::Timestamptz(n) => decimal_i128(*n as i128),
        Duckvalue::Float64(f) => f.text.clone(),
        Duckvalue::Float32(f) => f.text.clone(),
        Duckvalue::Text(s) => quote_debug(s.as_str()),
        Duckvalue::Blob(b) => {
            let mut out = "<blob ".to_owned();
            out.append(decimal_u128(b.len() as u128).as_str());
            out.append(" bytes>");
            out
        },
        Duckvalue::Decimal(d) => format_decimal(d.lower, d.upper, d.width, d.scale),
        Duckvalue::Interval(iv) => {
            let mut out = decimal_i128(iv.months as i128);
            out.append("mon ");
            out.append(decimal_i128(iv.days as i128).as_str());
            out.append("d ");
            out.append(decimal_i128(iv.micros as i128).as_str());
            out.append("us");
            out
        },
        Duckvalue::Uuid(u) => format_uuid(u.hi, u.lo),
        Duckvalue::Hugeint(h) => format_hugeint(h.lower, h.upper),
        Duckvalue::Uhugeint(h) => format_uhugeint(h.lower, h.upper),
        Duckvalue::Complex(c) => {
            let mut out = c.type_expr.clone();
            out.append(":");
            out.append(c.json.as_str());
            out
        },
    }
}

// ---------------------------------------------------------------------------
// Rows and results
// ---------------------------------------------------------------------------

/// The text of each cell of a row.
pub open spec fn row_texts(row: Seq<ValueModel>) -> Seq<Seq<char>> {
    row.map_values(|v: ValueModel| cell_text(v))
}

/// The text of each cell of each row.
pub open spec fn table_texts(rows: Seq<Seq<ValueModel>>) -> Seq<Seq<Seq<char>>> {
    rows.map_values(|row: Seq<ValueModel>| row_texts(row))
}

pub fn render_row(row: &Vec<Duckvalue>) -> (r: Vec<String>)
    ensures
        views(r@) == row_texts(views(row@)),
{
    let mut out: Vec<String> = Vec::new();
    let mut i: usize = 0;
    while i < row.len()
        invariant
            i <= row@.len(),
            out@.len() == i,
            forall|j: int| 0 <= j < i ==> (#[trigger] out@[j])@ == cell_text(row@[j]@),
        decreases row@.len() - i,
    {
        out.push(spi_value_text(&row[i]));
        i += 1;
    }
    assert(views(out@) =~= row_texts(views(row@)));
    out
}

/// The cells of a result as texts.
pub fn render_table(rows: &Vec<Vec<Duckvalue>>) -> (r: Vec<Vec<String>>)
    ensures
        rows_of(r@) == table_texts(rows_of(rows@)),
{
    let mut out: Vec<Vec<String>> = Vec::new();
    let mut i: usize = 0;
    while i < rows.len()
        invariant
            i <= rows@.len(),
            out@.len() == i,
            forall|j: int| 0 <= j < i ==> views((#[trigger] out@[j])@) == row_texts(views(rows@[j]@)),
        decreases rows@.len() - i,
    {
        out.push(render_row(&rows[i]));
        i += 1;
    }
    assert(rows_of(out@) =~= table_texts(rows_of(rows@)));
    out
}

/// Rows as text: one line per row, cells separated by tabs, each line ended.
pub open spec fn lines_of(rows: Seq<Seq<ValueModel>>) -> Seq<char>
    decreases rows.len(),
{
    if rows.len() == 0 {
        Seq::empty()
    } else {
        lines_of(rows.drop_last()) + join_of(row_texts(rows.last()), "\t"@) + "\n"@
    }
}

/// A result as text, without its column names.
pub fn spi_render_rows(qr: &QueryResult) -> (r: String)
    ensures
        r@ == lines_of(qr@.rows),
{
    let mut out = String::new();
    let mut i: usize = 0;
    while i < qr.rows.len()
        invariant
            i <= qr.rows@.len(),
            out@ == lines_of(rows_of(qr.rows@).take(i as int)),
        decreases qr.rows@.len() - i,
    {
        let cells = render_row(&qr.rows[i]);
        out.append(join(&cells, "\t").as_str());
        out.append("\n");
        i += 1;
        proof {
            let t = rows_of(qr.rows@).take(i as int);
            assert(t.drop_last() =~= rows_of(qr.rows@).take(i - 1));
            assert(t.last() == views(qr.rows@[i - 1]@));
        }
    }
    assert(rows_of(qr.rows@).take(qr.rows@.len() as int) =~= rows_of(qr.rows@));
    out
}

/// The number of rows that a statement changed, read from its result: the core
/// reports it as an integer in the only row of a single column named `Count`.
pub open spec fn affected_by(
    columns: Seq<crate::model::ColumnModel>,
    rows: Seq<Seq<ValueModel>>,
) -> Option<u64> {
    if columns.len() != 1 || lower(columns[0].name) != lower("Count"@) || rows.len() != 1
        || rows[0].len() != 1 {
        None
    } else {
        match rows[0][0] {
            ValueModel::Int64(v) => Some(if v < 0 { 0 } else { v as u64 }),
            ValueModel::Uint64(v) => Some(v),
            ValueModel::Int32(v) => Some(if v < 0 { 0 } else { v as u64 }),
            ValueModel::Uint32(v) => Some(v as u64),
            ValueModel::Int16(v) => Some(if v < 0 { 0 } else { v as u64 }),
            ValueModel::Uint16(v) => Some(v as u64),
            ValueModel::Int8(v) => Some(if v < 0 { 0 } else { v as u64 }),
            ValueModel::Uint8(v) => Some(v as u64),
            _ => None,
        }
    }
}

pub fn extract_rows_affected(qr: &QueryResult) -> (r: Option<u64>)
    ensures
        r == affected_by(qr@.columns, qr@.rows),
{
    if qr.columns.len() != 1 {
        return None;
    }
    if !same_text_ignoring_case(qr.columns[0].name.as_str(), "Count") {
        assert(qr@.columns[0].name == qr.columns@[0].name@);
        return None;
    }
    assert(qr@.columns[0].name == qr.columns@[0].name@);
    if qr.rows.len() != 1 {
        return None;
    }
    assert(qr@.rows[0] == views(qr.rows@[0]@));
    if qr.rows[0].len() != 1 {
        return None;
    }
    assert(qr@.rows[0][0] == qr.rows@[0]@[0]@);
    match &qr.rows[0][0] {
        Duckvalue::Int64(v) => Some(if *v < 0 { 0 } else { *v as u64 }),
        Duckvalue::Uint64(v) => Some(*v),
        Duckvalue::Int32(v) => Some(if *v < 0 { 0 } else { *v as u64 }),
        Duckvalue::Uint32(v) => Some(*v as u64),
        Duckvalue::Int16(v) => Some(if *v < 0 { 0 } else { *v as u64 }),
        Duckvalue::Uint16(v) => Some(*v as u64),
        Duckvalue::Int8(v) => Some(if *v < 0 { 0 } else { *v as u64 }),
        Duckvalue::Uint8(v) => Some(*v as u64),
        _ => None,
    }
}

/// What a nested statement hands back: its rows as text, and the number of rows it
/// changed when it was a pure write.
#[derive(Debug)]
pub struct NestedExecResult {
    pub rows: Option<Vec<Vec<String>>>,
    pub rows_affected: Option<u64>,
}

pub fn query_result_to_nested_exec(qr: &QueryResult) -> (r: NestedExecResult)
    ensures
        r.rows is Some,
        rows_of(r.rows->0@) == table_texts(qr@.rows),
        r.rows_affected == affected_by(qr@.columns, qr@.rows),
{
    NestedExecResult { rows: Some(render_table(&qr.rows)), rows_affected: extract_rows_affected(qr) }
}

// ---------------------------------------------------------------------------
// Laws
// ---------------------------------------------------------------------------

/// A UUID is rendered in 36 characters with hyphens at 8, 13, 18 and 23.
pub proof fn law_uuid_text_is_canonical(hi: u64, lo: u64)
    ensures
        uuid_text(hi, lo).len() == 36,
        uuid_text(hi, lo)[8] == '-',
        uuid_text(hi, lo)[13] == '-',
        uuid_text(hi, lo)[18] == '-',
        uuid_text(hi, lo)[23] == '-',
{
    reveal_strlit("-");
}

/// A DECIMAL with a scale shows at least one digit before its point and exactly
/// `scale` digits behind it.
pub proof fn law_decimal_point_position(raw: int, scale: nat)
    requires
        scale > 0,
    ensures
        decimal_text(raw, scale).len() >= scale + 2,
        decimal_text(raw, scale)[decimal_text(raw, scale).len() - scale - 1] == '.',
{
    reveal_strlit(".");
}

/// What a cell shows, kind by kind: nothing for NULL, "true" or "false", the number in
/// decimal digits, a text as it is, a length for bytes.
pub proof fn law_cell_shows_its_value(v: ValueModel)
    ensures
        match v {
            ValueModel::Null => cell_text(v).len() == 0,
            ValueModel::Boolean(b) => cell_text(v) == (if b { "true"@ } else { "false"@ }),
            ValueModel::Int64(n) => cell_text(v) == decimal_of(n as int),
            ValueModel::Uint64(n) => cell_text(v) == decimal_of(n as int),
            ValueModel::Int32(n) => cell_text(v) == decimal_of(n as int),
            ValueModel::Timestamp(n) => cell_text(v) == decimal_of(n as int),
            ValueModel::Int8(n) => cell_text(v) == decimal_of(n as int),
            ValueModel::Int16(n) => cell_text(v) == decimal_of(n as int),
            ValueModel::Uint8(n) => cell_text(v) == decimal_of(n as int),
            ValueModel::Uint16(n) => cell_text(v) == decimal_of(n as int),
            ValueModel::Uint32(n) => cell_text(v) == decimal_of(n as int),
            ValueModel::Date(n) => cell_text(v) == decimal_of(n as int),
            ValueModel::Time(n) => cell_text(v) == decimal_of(n as int),
            ValueModel::Timestamptz(n) => cell_text(v) == decimal_of(n as int),
            ValueModel::Float64(x) => cell_text(v) == x.text,
            ValueModel::Float32(x) => cell_text(v) == x.text,
            ValueModel::Text(s) => cell_text(v) == s,
            ValueModel::Blob(b) => cell_text(v) == "<blob "@ + decimal_of(b.len() as int) + " bytes>"@,
            ValueModel::Interval(iv) => cell_text(v) == decimal_of(iv.months as int) + " months "@
                + decimal_of(iv.days as int) + " days "@ + decimal_of(iv.micros as int) + " us"@,
            ValueModel::Hugeint(h) => cell_text(v) == decimal_of(
                h.upper * 0x1_0000_0000_0000_0000 + h.lower,
            ),
            ValueModel::Uhugeint(h) => cell_text(v) == decimal_of(
                h.upper * 0x1_0000_0000_0000_0000 + h.lower,
            ),
            ValueModel::Complex(c) => cell_text(v) == c.json,
            ValueModel::Decimal(_) | ValueModel::Uuid(_) => cell_text(v).len() > 0,
        },
{
    if let ValueModel::Decimal(d) = v {
        law_decimal_shows_its_digits(d);
    }
}

/// A label names NULL, quotes a text, abbreviates an interval and gives the type of a
/// nested value in front of it; any other value it shows as a cell does.
pub proof fn law_label_shows_its_value(v: ValueModel)
    ensures
        match v {
            ValueModel::Null => label_text(v) == "NULL"@,
            ValueModel::Text(s) => label_text(v) == debug_text(s),
            ValueModel::Interval(iv) => label_text(v) == decimal_of(iv.months as int) + "mon "@
                + decimal_of(iv.days as int) + "d "@ + decimal_of(iv.micros as int) + "us"@,
            ValueModel::Complex(c) => label_text(v) == c.type_expr + ":"@ + c.json,
            _ => label_text(v) == cell_text(v),
        },
{
}

/// A DECIMAL shows its number, which is the two halves read as one signed number of 128
/// bits: a minus sign where it is negative; with a scale above zero a point with exactly
/// that many digits behind it and at least one before; and without the point, the digits
/// of the number's magnitude, with zeros in front only as far as the point needs them.
pub proof fn law_decimal_shows_its_digits(d: Decimalvalue)
    ensures
        ({
            let unsigned = d.upper * 0x1_0000_0000_0000_0000 + d.lower;
            let value: int = if d.upper < 0x8000_0000_0000_0000 {
                unsigned
            } else {
                unsigned - 0x1_0000_0000_0000_0000 * 0x1_0000_0000_0000_0000
            };
            let text = cell_text(ValueModel::Decimal(d));
            let body = if value < 0 {
                text.skip(1)
            } else {
                text
            };
            let point = body.len() - d.scale - 1;
            let digits = if d.scale > 0 {
                body.take(point) + body.skip(point + 1)
            } else {
                body
            };
            &&& text.len() > 0
            &&& (text[0] == '-') == (value < 0)
            &&& d.scale > 0 ==> point >= 1 && body[point] == '.'
            &&& all_digits(digits)
            &&& number_of(digits) == (if value < 0 { -value } else { value })
            &&& digits.len() > d.scale
            &&& digits[0] == '0' ==> digits.len() == d.scale + 1
        }),
{
    let value = int128(d.lower, d.upper);
    let scale = d.scale as nat;
    let size = (if value < 0 { -value } else { value }) as nat;
    let magnitude = digits_of(size);
    law_digits_write_the_number(size);
    reveal_strlit("-");
    reveal_strlit(".");
    let ds = padded(magnitude, scale);
    if magnitude.len() <= scale {
        lemma_zeros_in_front((scale + 1 - magnitude.len()) as nat, magnitude);
    }
    let text = cell_text(ValueModel::Decimal(d));
    let body = if value < 0 {
        text.skip(1)
    } else {
        text
    };
    let cut = ds.len() - scale;
    if scale > 0 {
        assert(body =~= ds.take(cut) + "."@ + ds.skip(cut));
        assert(body.take(cut) + body.skip(cut + 1) =~= ds);
        assert(all_digits(ds));
        assert(is_digit(ds[0]));
        assert(body[0] == ds[0]);
    } else {
        assert(body =~= magnitude);
        assert(all_digits(magnitude));
        assert(is_digit(magnitude[0]));
        assert(ds == magnitude);
    }
}

/// Zeros in front leave the number.
proof fn lemma_zeros_in_front(n: nat, ds: Seq<char>)
    requires
        all_digits(ds),
    ensures
        all_digits(zeros(n) + ds),
        number_of(zeros(n) + ds) == number_of(ds),
    decreases n + ds.len(),
{
    let s = zeros(n) + ds;
    assert(all_digits(s));
    if ds.len() > 0 {
        assert(s.drop_last() =~= zeros(n) + ds.drop_last());
        assert(s.last() == ds.last());
        lemma_zeros_in_front(n, ds.drop_last());
    } else if n > 0 {
        assert(s.drop_last() =~= zeros((n - 1) as nat) + ds);
        assert(s.last() == '0');
        lemma_zeros_in_front((n - 1) as nat, ds);
    } else {
        assert(s =~= ds);
    }
}

/// The value of a hexadecimal digit.
pub open spec fn hex_value(c: char) -> int {
    if '0' <= c <= '9' {
        c as int - 48
    } else {
        c as int - 87
    }
}

/// The number that hexadecimal digits write.
pub open spec fn hex_number(s: Seq<char>) -> int
    decreases s.len(),
{
    if s.len() == 0 {
        0
    } else {
        hex_number(s.drop_last()) * 16 + hex_value(s.last())
    }
}

proof fn lemma_hex_half(half: u64, s: Seq<char>, n: int)
    requires
        0 < n <= 16,
        s.len() == n,
        forall|i: int| 0 <= i < n ==> #[trigger] s[i] == hex_char(nibble(half, i)),
    ensures
        hex_number(s) == half >> ((64 - 4 * n) as u64),
    decreases n,
{
    let shift = (64 - 4 * n) as u64;
    let x = half >> shift;
    assert(x & 15 <= 15) by (bit_vector);
    assert(s[n - 1] == hex_char(nibble(half, n - 1)));
    assert(60 - 4 * (n - 1) == 64 - 4 * n);
    assert(nibble(half, n - 1) == x & 15);
    assert(hex_value(s.last()) == (x & 15));
    if n == 1 {
        assert(hex_number(s.drop_last()) == 0);
        assert((half >> 60u64) & 15 == half >> 60u64) by (bit_vector);
    } else {
        lemma_hex_half(half, s.drop_last(), n - 1);
        assert(half >> ((shift + 4) as u64) == (half >> shift) >> 4u64) by (bit_vector)
            requires
                shift <= 56,
        ;
        assert(x == (x >> 4u64) * 16 + (x & 15)) by (bit_vector);
        assert((64 - 4 * (n - 1)) as u64 == (shift + 4) as u64);
    }
}

/// The text of a UUID without its hyphens writes the high half and then the low half in
/// sixteen lower-case hexadecimal digits each.
pub proof fn law_uuid_shows_both_halves(hi: u64, lo: u64)
    ensures
        ({
            let text = uuid_text(hi, lo);
            let h = text.subrange(0, 8) + text.subrange(9, 13) + text.subrange(14, 18);
            let l = text.subrange(19, 23) + text.subrange(24, 36);
            &&& cell_text(ValueModel::Uuid(crate::model::Uuidvalue { hi: hi, lo: lo })) == text
            &&& hex_number(h) == hi
            &&& hex_number(l) == lo
            &&& forall|i: int|
                0 <= i < 36 && i != 8 && i != 13 && i != 18 && i != 23 ==> ('0' <= #[trigger] text[i]
                    <= '9' || 'a' <= text[i] <= 'f')
        }),
{
    reveal_strlit("-");
    let text = uuid_text(hi, lo);
    let hex = uuid_hex(hi, lo);
    let h = text.subrange(0, 8) + text.subrange(9, 13) + text.subrange(14, 18);
    let l = text.subrange(19, 23) + text.subrange(24, 36);
    assert(h =~= hex.subrange(0, 16));
    assert(l =~= hex.subrange(16, 32));
    assert forall|i: int| 0 <= i < 16 implies #[trigger] l[i] == hex_char(nibble(lo, i)) by {
        assert(l[i] == hex[16 + i]);
    }
    lemma_hex_half(hi, h, 16);
    lemma_hex_half(lo, l, 16);
    assert(hi >> 0u64 == hi) by (bit_vector);
    assert(lo >> 0u64 == lo) by (bit_vector);
    assert forall|i: int| 0 <= i < 32 implies ('0' <= #[trigger] hex[i] <= '9' || 'a' <= hex[i] <= 'f') by {
        let half = if i < 16 { hi } else { lo };
        let k = if i < 16 { i } else { i - 16 };
        let x = half >> ((60 - 4 * k) as u64);
        assert(x & 15 <= 15) by (bit_vector);
        assert(hex[i] == hex_char(x & 15));
    }
    assert forall|i: int|
        0 <= i < 36 && i != 8 && i != 13 && i != 18 && i != 23 implies ('0' <= #[trigger] text[i] <= '9'
        || 'a' <= text[i] <= 'f') by {
        let k = i - (if i > 8 { 1int } else { 0 }) - (if i > 13 { 1int } else { 0 }) - (if i > 18 {
            1int
        } else {
            0
        }) - (if i > 23 { 1int } else { 0 });
        assert(text[i] == hex[k]);
    }
}

/// A rendered table has a text for each cell, at the cell's place.
pub proof fn law_table_is_by_cell(rows: Seq<Seq<ValueModel>>, r: int, c: int)
    requires
        0 <= r < rows.len(),
        0 <= c < rows[r].len(),
    ensures
        table_texts(rows).len() == rows.len(),
        table_texts(rows)[r].len() == rows[r].len(),
        table_texts(rows)[r][c] == cell_text(rows[r][c]),
        row_texts(rows[r]) == table_texts(rows)[r],
{
}

/// Rows are printed one behind the other, each with tabs between its cells and a line
/// feed at its end.
pub proof fn law_lines_are_by_row(a: Seq<Seq<ValueModel>>, b: Seq<Seq<ValueModel>>, row: Seq<ValueModel>)
    ensures
        lines_of(a + b) == lines_of(a) + lines_of(b),
        lines_of(seq![row]) == join_of(row_texts(row), seq!['\t']).push('\n'),
    decreases b.len(),
{
    reveal_strlit("\t");
    reveal_strlit("\n");
    assert("\t"@ =~= seq!['\t']);
    assert(seq![row].drop_last() =~= Seq::<Seq<ValueModel>>::empty());
    assert(lines_of(Seq::<Seq<ValueModel>>::empty()) =~= Seq::<char>::empty());
    assert(lines_of(seq![row]) =~= join_of(row_texts(row), seq!['\t']).push('\n'));
    if b.len() == 0 {
        assert(a + b =~= a);
        assert(lines_of(a) + lines_of(b) =~= lines_of(a));
    } else {
        assert((a + b).drop_last() =~= a + b.drop_last());
        law_lines_are_by_row(a, b.drop_last(), row);
        assert(lines_of(a + b) =~= lines_of(a) + lines_of(b));
    }
}

/// The number of changed rows is the single whole number under the single column "Count",
/// in any case, with zero for a negative one; any other result gives none.
pub proof fn law_count_is_the_single_cell(
    columns: Seq<crate::model::ColumnModel>,
    rows: Seq<Seq<ValueModel>>,
)
    ensures
        ({
            let counted = columns.len() == 1 && lower(columns[0].name) == "count"@ && rows.len() == 1
                && rows[0].len() == 1;
            let number: Option<int> = match rows[0][0] {
                ValueModel::Int64(n) => Some(n as int),
                ValueModel::Uint64(n) => Some(n as int),
                ValueModel::Int32(n) => Some(n as int),
                ValueModel::Uint32(n) => Some(n as int),
                ValueModel::Int16(n) => Some(n as int),
                ValueModel::Uint16(n) => Some(n as int),
                ValueModel::Int8(n) => Some(n as int),
                ValueModel::Uint8(n) => Some(n as int),
                _ => None,
            };
            match affected_by(columns, rows) {
                Some(k) => counted && (number matches Some(n) && k == (if n < 0 { 0 } else { n })),
                None => !counted || number is None,
            }
        }),
{
    reveal_strlit("Count");
    reveal_strlit("count");
    assert(lower("Count"@) =~= "count"@);
}

} // verus!
