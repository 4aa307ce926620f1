//! Columns of values: the columnar form in which the core exchanges batches, and
//! its pivots to and from rows.
use crate::convert::{
    convert_core_duckvalue_to_extension, convert_extension_duckvalue_to_core, core_value_of,
};
use crate::core_types::{copy_value, Duckvalue};
use crate::extension_types;
use crate::model::{
    copy_complex, copy_f32, copy_f64, views, ComplexModel, Complexvalue, Decimalvalue, Float32Model,
    Float32value, Float64Model, Float64value, Hugeintvalue, Intervalvalue, Uhugeintvalue, Uuidvalue,
    ValueModel,
};
use crate::text::{decimal_of, decimal_u128};
use vstd::prelude::*;

verus! {

/// A list or struct column: one encoded buffer for all rows.
#[derive(Debug)]
pub struct NestedColumn {
    pub encoded: Vec<u8>,
}

/// A map column: its keys and its values, encoded.
#[derive(Debug)]
pub struct MapColumn {
    pub keys_encoded: Vec<u8>,
    pub vals_encoded: Vec<u8>,
}

/// A fixed-size array column: the array size and one encoded buffer for all rows.
#[derive(Debug)]
pub struct ArrayColumn {
    pub size: u32,
    pub encoded: Vec<u8>,
}

/// The cells of one column, one vector per kind of value.
#[derive(Debug)]
pub enum Column {
    Boolean(Vec<bool>),
    Int64(Vec<i64>),
    Uint64(Vec<u64>),
    Float64(Vec<Float64value>),
    Text(Vec<String>),
    Blob(Vec<Vec<u8>>),
    Int32(Vec<i32>),
    Timestamp(Vec<i64>),
    Int8(Vec<i8>),
    Int16(Vec<i16>),
    Uint8(Vec<u8>),
    Uint16(Vec<u16>),
    Uint32(Vec<u32>),
    Float32(Vec<Float32value>),
    Date(Vec<i32>),
    Time(Vec<i64>),
    Timestamptz(Vec<i64>),
    Decimal(Vec<Decimalvalue>),
    Interval(Vec<Intervalvalue>),
    Uuid(Vec<Uuidvalue>),
    Hugeint(Vec<Hugeintvalue>),
    Uhugeint(Vec<Uhugeintvalue>),
    Complex(Vec<Complexvalue>),
    ListCol(NestedColumn),
    StructCol(NestedColumn),
    MapCol(MapColumn),
    ArrayCol(ArrayColumn),
}

/// A column with its validity bitmap, lowest bit first. An empty bitmap, or a row
/// behind the end of the bitmap, means that the value is there.
#[derive(Debug)]
pub struct Colvec {
    pub data: Column,
    pub validity: Vec<u8>,
    pub rows: u32,
}

/// Bit `r` of a bitmap, lowest bit of each byte first.
pub open spec fn bit_at(bitmap: Seq<u8>, r: int) -> bool {
    (bitmap[r / 8] >> ((r % 8) as u8)) & 1 != 0
}

/// Row `r` holds a value.
pub open spec fn valid_at(validity: Seq<u8>, r: int) -> bool {
    validity.len() == 0 || r / 8 >= validity.len() || bit_at(validity, r)
}

/// A nested column has no value per row: it shows as a label and a size summary.
pub open spec fn nested_text(kind: Seq<char>, r: int) -> Seq<char> {
    kind + "(row "@ + decimal_of(r) + ")"@
}

/// The value that a column holds in row `r`, whether it is marked valid or not.
pub open spec fn raw_cell(c: Column, r: int) -> ValueModel {
    match c {
        Column::Boolean(v) => ValueModel::Boolean(v@[r]),
        Column::Int64(v) => ValueModel::Int64(v@[r]),
        Column::Uint64(v) => ValueModel::Uint64(v@[r]),
        Column::Float64(v) => ValueModel::Float64(v@[r]@),
        Column::Text(v) => ValueModel::Text(v@[r]@),
        Column::Blob(v) => ValueModel::Blob(v@[r]@),
        Column::Int32(v) => ValueModel::Int32(v@[r]),
        Column::Timestamp(v) => ValueModel::Timestamp(v@[r]),
        Column::Int8(v) => ValueModel::Int8(v@[r]),
        Column::Int16(v) => ValueModel::Int16(v@[r]),
        Column::Uint8(v) => ValueModel::Uint8(v@[r]),
        Column::Uint16(v) => ValueModel::Uint16(v@[r]),
        Column::Uint32(v) => ValueModel::Uint32(v@[r]),
        Column::Float32(v) => ValueModel::Float32(v@[r]@),
        Column::Date(v) => ValueModel::Date(v@[r]),
        Column::Time(v) => ValueModel::Time(v@[r]),
        Column::Timestamptz(v) => ValueModel::Timestamptz(v@[r]),
        Column::Decimal(v) => ValueModel::Decimal(v@[r]),
        Column::Interval(v) => ValueModel::Interval(v@[r]),
        Column::Uuid(v) => ValueModel::Uuid(v@[r]),
        Column::Hugeint(v) => ValueModel::Hugeint(v@[r]),
        Column::Uhugeint(v) => ValueModel::Uhugeint(v@[r]),
        Column::Complex(v) => ValueModel::Complex(v@[r]@),
        Column::ListCol(v) => ValueModel::Complex(
            ComplexModel {
                type_expr: nested_text("LIST"@, r),
                json: "{\"kind\":\"list\",\"bytes\":"@ + decimal_of(v.encoded@.len() as int) + "}"@,
            },
        ),
        Column::StructCol(v) => ValueModel::Complex(
            ComplexModel {
                type_expr: nested_text("STRUCT"@, r),
                json: "{\"kind\":\"struct\",\"bytes\":"@ + decimal_of(v.encoded@.len() as int) + "}"@,
            },
        ),
        Column::MapCol(v) => ValueModel::Complex(
            ComplexModel {
                type_expr: nested_text("MAP"@, r),
                json: "{\"kind\":\"map\",\"keys_bytes\":"@ + decimal_of(v.keys_encoded@.len() as int)
                    + ",\"vals_bytes\":"@ + decimal_of(v.vals_encoded@.len() as int) + "}"@,
            },
        ),
        Column::ArrayCol(v) => ValueModel::Complex(
            ComplexModel {
                type_expr: nested_text("ARRAY"@, r),
                json: "{\"kind\":\"array\",\"size\":"@ + decimal_of(v.size as int) + ",\"bytes\":"@
                    + decimal_of(v.encoded@.len() as int) + "}"@,
            },
        ),
    }
}

/// The column has a cell for row `r`. A nested column has one for every row.
pub open spec fn has_cell(c: Column, r: int) -> bool {
    match c {
        Column::Boolean(v) => 0 <= r < v@.len(),
        Column::Int64(v) => 0 <= r < v@.len(),
        Column::Uint64(v) => 0 <= r < v@.len(),
        Column::Float64(v) => 0 <= r < v@.len(),
        Column::Text(v) => 0 <= r < v@.len(),
        Column::Blob(v) => 0 <= r < v@.len(),
        Column::Int32(v) => 0 <= r < v@.len(),
        Column::Timestamp(v) => 0 <= r < v@.len(),
        Column::Int8(v) => 0 <= r < v@.len(),
        Column::Int16(v) => 0 <= r < v@.len(),
        Column::Uint8(v) => 0 <= r < v@.len(),
        Column::Uint16(v) => 0 <= r < v@.len(),
        Column::Uint32(v) => 0 <= r < v@.len(),
        Column::Float32(v) => 0 <= r < v@.len(),
        Column::Date(v) => 0 <= r < v@.len(),
        Column::Time(v) => 0 <= r < v@.len(),
        Column::Timestamptz(v) => 0 <= r < v@.len(),
        Column::Decimal(v) => 0 <= r < v@.len(),
        Column::Interval(v) => 0 <= r < v@.len(),
        Column::Uuid(v) => 0 <= r < v@.len(),
        Column::Hugeint(v) => 0 <= r < v@.len(),
        Column::Uhugeint(v) => 0 <= r < v@.len(),
        Column::Complex(v) => 0 <= r < v@.len(),
        _ => true,
    }
}

/// The value of row `r`: NULL where the bitmap says so, else what the column holds.
pub open spec fn cell_at(c: Colvec, r: int) -> ValueModel {
    if valid_at(c.validity@, r) {
        raw_cell(c.data, r)
    } else {
        ValueModel::Null
    }
}

/// Every valid row below `n` has a cell.
pub open spec fn covers(c: Colvec, n: int) -> bool {
    forall|r: int| 0 <= r < n && valid_at(c.validity@, r) ==> #[trigger] has_cell(c.data, r)
}

fn row_is_valid(validity: &Vec<u8>, r: usize) -> (b: bool)
    ensures
        b == valid_at(validity@, r as int),
{
    if validity.len() == 0 || r / 8 >= validity.len() {
        return true;
    }
    let shift: u8 = (r % 8) as u8;
    (validity[r / 8] >> shift) & 1 != 0
}

fn nested_label(kind: &str, r: usize) -> (s: String)
    ensures
        s@ == nested_text(kind@, r as int),
{
    let mut out = kind.to_owned();
    out.append("(row ");
    out.append(decimal_u128(r as u128).as_str());
    out.append(")");
    out
}

/// Row `r` of a column.
pub fn core_colvec_value_at(c: &Colvec, r: usize) -> (v: Duckvalue)
    requires
        valid_at(c.validity@, r as int) ==> has_cell(c.data, r as int),
    ensures
        v@ == cell_at(*c, r as int),
{
    if !row_is_valid(&c.validity, r) {
        return Duckvalue::Null;
    }
    match &c.data {
        Column::Boolean(v) => Duckvalue::Boolean(v[r]),
        Column::Int64(v) => Duckvalue::Int64(v[r]),
        Column::Uint64(v) => Duckvalue::Uint64(v[r]),
        Column::Float64(v) => Duckvalue::Float64(copy_f64(&v[r])),
        Column::Text(v) => Duckvalue::Text(v[r].clone()),
        Column::Blob(v) => Duckvalue::Blob(v[r].clone()),
        Column::Int32(v) => Duckvalue::Int32(v[r]),
        Column::Timestamp(v) => Duckvalue::Timestamp(v[r]),
        Column::Int8(v) => Duckvalue::Int8(v[r]),
        Column::Int16(v) => Duckvalue::Int16(v[r]),
        Column::Uint8(v) => Duckvalue::Uint8(v[r]),
        Column::Uint16(v) => Duckvalue::Uint16(v[r]),
        Column::Uint32(v) => Duckvalue::Uint32(v[r]),
        Column::Float32(v) => Duckvalue::Float32(copy_f32(&v[r])),
        Column::Date(v) => Duckvalue::Date(v[r]),
        Column::Time(v) => Duckvalue::Time(v[r]),
        Column::Timestamptz(v) => Duckvalue::Timestamptz(v[r]),
        Column::Decimal(v) => Duckvalue::Decimal(v[r]),
        Column::Interval(v) => Duckvalue::Interval(v[r]),
        Column::Uuid(v) => Duckvalue::Uuid(v[r]),
        Column::Hugeint(v) => Duckvalue::Hugeint(v[r]),
        Column::Uhugeint(v) => Duckvalue::Uhugeint(v[r]),
        Column::Complex(v) => Duckvalue::Complex(copy_complex(&v[r])),
        Column::ListCol(v) => {
            let mut json = "{\"kind\":\"list\",\"bytes\":".to_owned();
            json.append(decimal_u128(v.encoded.len() as u128).as_str());
            json.append("}");
            Duckvalue::Complex(Complexvalue { type_expr: nested_label("LIST", r), json })
        },
        Column::StructCol(v) => {
            let mut json = "{\"kind\":\"struct\",\"bytes\":".to_owned();
            json.append(decimal_u128(v.encoded.len() as u128).as_str());
            json.append("}");
            Duckvalue::Complex(Complexvalue { type_expr: nested_label("STRUCT", r), json })
        },
        Column::MapCol(v) => {
            let mut json = "{\"kind\":\"map\",\"keys_bytes\":".to_owned();
            json.append(decimal_u128(v.keys_encoded.len() as u128).as_str());
            json.append(",\"vals_bytes\":");
            json.append(decimal_u128(v.vals_encoded.len() as u128).as_str());
            json.append("}");
            Duckvalue::Complex(Complexvalue { type_expr: nested_label("MAP", r), json })
        },
        Column::ArrayCol(v) => {
            let mut json = "{\"kind\":\"array\",\"size\":".to_owned();
            json.append(decimal_u128(v.size as u128).as_str());
            json.append(",\"bytes\":");
            json.append(decimal_u128(v.encoded.len() as u128).as_str());
            json.append("}");
            Duckvalue::Complex(Complexvalue { type_expr: nested_label("ARRAY", r), json })
        },
    }
}

/// The number of rows of a batch: that of its first column, zero without columns.
pub open spec fn batch_rows(args: Seq<Colvec>) -> int {
    if args.len() == 0 {
        0
    } else {
        args[0].rows as int
    }
}

fn cell_present(c: &Column, r: usize) -> (b: bool)
    ensures
        b == has_cell(*c, r as int),
{
    match c {
        Column::Boolean(v) => r < v.len(),
        Column::Int64(v) => r < v.len(),
        Column::Uint64(v) => r < v.len(),
        Column::Float64(v) => r < v.len(),
        Column::Text(v) => r < v.len(),
        Column::Blob(v) => r < v.len(),
        Column::Int32(v) => r < v.len(),
        Column::Timestamp(v) => r < v.len(),
        Column::Int8(v) => r < v.len(),
        Column::Int16(v) => r < v.len(),
        Column::Uint8(v) => r < v.len(),
        Column::Uint16(v) => r < v.len(),
        Column::Uint32(v) => r < v.len(),
        Column::Float32(v) => r < v.len(),
        Column::Date(v) => r < v.len(),
        Column::Time(v) => r < v.len(),
        Column::Timestamptz(v) => r < v.len(),
        Column::Decimal(v) => r < v.len(),
        Column::Interval(v) => r < v.len(),
        Column::Uuid(v) => r < v.len(),
        Column::Hugeint(v) => r < v.len(),
        Column::Uhugeint(v) => r < v.len(),
        Column::Complex(v) => r < v.len(),
        _ => true,
    }
}

/// Every valid row below `n` has a cell.
pub fn is_covered(c: &Colvec, n: usize) -> (b: bool)
    ensures
        b == covers(*c, n as int),
{
    let mut r: usize = 0;
    while r < n
        invariant
            r <= n,
            covers(*c, r as int),
        decreases n - r,
    {
        let ghost before = r;
        if row_is_valid(&c.validity, r) && !cell_present(&c.data, r) {
            assert(!has_cell(c.data, r as int));
            return false;
        }
        r += 1;
        assert forall|q: int| 0 <= q < r && valid_at(c.validity@, q) implies #[trigger] has_cell(
            c.data,
            q,
        ) by {
            if q < before {
                assert(has_cell(c.data, q));
            }
        }
    }
    true
}

/// The values of one column, as an extension is to cast them.
pub fn cast_inputs(c: &Colvec) -> (r: Vec<extension_types::Duckvalue>)
    requires
        covers(*c, c.rows as int),
    ensures
        views(r@) == Seq::new(c.rows as nat, |i: int| cell_at(*c, i)),
{
    let n: usize = c.rows as usize;
    let mut out: Vec<extension_types::Duckvalue> = Vec::new();
    let mut i: usize = 0;
    while i < n
        invariant
            i <= n == c.rows,
            covers(*c, c.rows as int),
            out@.len() == i,
            forall|k: int| 0 <= k < i ==> (#[trigger] out@[k])@ == cell_at(*c, k),
        decreases n - i,
    {
        assert(valid_at(c.validity@, i as int) ==> has_cell(c.data, i as int));
        out.push(convert_core_duckvalue_to_extension(core_colvec_value_at(c, i)));
        i += 1;
    }
    assert(views(out@) =~= Seq::new(c.rows as nat, |k: int| cell_at(*c, k)));
    out
}

/// A batch in rows, as an extension sees it.
pub fn core_colvecs_to_ext_rows(args: &Vec<Colvec>) -> (rows: Vec<Vec<extension_types::Duckvalue>>)
    requires
        forall|i: int| 0 <= i < args@.len() ==> covers(#[trigger] args@[i], batch_rows(args@)),
    ensures
        rows@.len() == batch_rows(args@),
        forall|r: int|
            0 <= r < rows@.len() ==> (#[trigger] views(rows@[r]@)) == args@.map_values(
                |c: Colvec| cell_at(c, r),
            ),
{
    let n: usize = if args.len() == 0 {
        0
    } else {
        args[0].rows as usize
    };
    let mut rows: Vec<Vec<extension_types::Duckvalue>> = Vec::new();
    let mut r: usize = 0;
    while r < n
        invariant
            n == batch_rows(args@),
            r <= n,
            rows@.len() == r,
            forall|i: int| 0 <= i < args@.len() ==> covers(#[trigger] args@[i], batch_rows(args@)),
            forall|q: int|
                0 <= q < r ==> (#[trigger] views(rows@[q]@)) == args@.map_values(
                    |c: Colvec| cell_at(c, q),
                ),
        decreases n - r,
    {
        let mut row: Vec<extension_types::Duckvalue> = Vec::new();
        let mut i: usize = 0;
        while i < args.len()
            invariant
                i <= args@.len(),
                r < n == batch_rows(args@),
                row@.len() == i,
                forall|k: int| 0 <= k < args@.len() ==> covers(#[trigger] args@[k], batch_rows(args@)),
                forall|k: int| 0 <= k < i ==> (#[trigger] row@[k])@ == cell_at(args@[k], r as int),
            decreases args@.len() - i,
        {
            assert(covers(args@[i as int], batch_rows(args@)));
            assert(valid_at(args@[i as int].validity@, r as int) ==> has_cell(args@[i as int].data, r as int));
            row.push(convert_core_duckvalue_to_extension(core_colvec_value_at(&args[i], r)));
            i += 1;
        }
        assert(views(row@) =~= args@.map_values(|c: Colvec| cell_at(c, r as int)));
        rows.push(row);
        r += 1;
    }
    rows
}

// ---------------------------------------------------------------------------
// Building a column
// ---------------------------------------------------------------------------

/// Both values are of the same kind.
pub open spec fn same_arm(a: ValueModel, b: ValueModel) -> bool {
    match a {
        ValueModel::Null => b is Null,
        ValueModel::Boolean(_) => b is Boolean,
        ValueModel::Int64(_) => b is Int64,
        ValueModel::Uint64(_) => b is Uint64,
        ValueModel::Float64(_) => b is Float64,
        ValueModel::Text(_) => b is Text,
        ValueModel::Blob(_) => b is Blob,
        ValueModel::Int32(_) => b is Int32,
        ValueModel::Timestamp(_) => b is Timestamp,
        ValueModel::Int8(_) => b is Int8,
        ValueModel::Int16(_) => b is Int16,
        ValueModel::Uint8(_) => b is Uint8,
        ValueModel::Uint16(_) => b is Uint16,
        ValueModel::Uint32(_) => b is Uint32,
        ValueModel::Float32(_) => b is Float32,
        ValueModel::Date(_) => b is Date,
        ValueModel::Time(_) => b is Time,
        ValueModel::Timestamptz(_) => b is Timestamptz,
        ValueModel::Decimal(_) => b is Decimal,
        ValueModel::Interval(_) => b is Interval,
        ValueModel::Uuid(_) => b is Uuid,
        ValueModel::Hugeint(_) => b is Hugeint,
        ValueModel::Uhugeint(_) => b is Uhugeint,
        ValueModel::Complex(_) => b is Complex,
    }
}

/// What stands in a column of `rep`'s kind where a row has no value of that kind.
pub open spec fn filler(rep: ValueModel) -> ValueModel {
    match rep {
        ValueModel::Null => ValueModel::Int64(0),
        ValueModel::Boolean(_) => ValueModel::Boolean(false),
        ValueModel::Int64(_) => ValueModel::Int64(0),
        ValueModel::Uint64(_) => ValueModel::Uint64(0),
        ValueModel::Float64(_) => ValueModel::Float64(
            Float64Model { bits: 0, text: "0"@, literal: "0.0"@ },
        ),
        ValueModel::Text(_) => ValueModel::Text(Seq::empty()),
        ValueModel::Blob(_) => ValueModel::Blob(Seq::empty()),
        ValueModel::Int32(_) => ValueModel::Int32(0),
        ValueModel::Timestamp(_) => ValueModel::Timestamp(0),
        ValueModel::Int8(_) => ValueModel::Int8(0),
        ValueModel::Int16(_) => ValueModel::Int16(0),
        ValueModel::Uint8(_) => ValueModel::Uint8(0),
        ValueModel::Uint16(_) => ValueModel::Uint16(0),
        ValueModel::Uint32(_) => ValueModel::Uint32(0),
        ValueModel::Float32(_) => ValueModel::Float32(
            Float32Model { bits: 0, text: "0"@, literal: "0.0"@ },
        ),
        ValueModel::Date(_) => ValueModel::Date(0),
        ValueModel::Time(_) => ValueModel::Time(0),
        ValueModel::Timestamptz(_) => ValueModel::Timestamptz(0),
        ValueModel::Decimal(_) => ValueModel::Decimal(Decimalvalue { lower: 0, upper: 0, width: 0, scale: 0 }),
        ValueModel::Interval(_) => ValueModel::Interval(Intervalvalue { months: 0, days: 0, micros: 0 }),
        ValueModel::Uuid(_) => ValueModel::Uuid(Uuidvalue { hi: 0, lo: 0 }),
        ValueModel::Hugeint(_) => ValueModel::Hugeint(Hugeintvalue { lower: 0, upper: 0 }),
        ValueModel::Uhugeint(_) => ValueModel::Uhugeint(Uhugeintvalue { lower: 0, upper: 0 }),
        ValueModel::Complex(_) => ValueModel::Complex(ComplexModel { type_expr: Seq::empty(), json: "null"@ }),
    }
}

/// The cells of a column, one per row; none for a nested column.
pub open spec fn cells(c: Column) -> Seq<ValueModel> {
    match c {
        Column::Boolean(v) => Seq::new(v@.len(), |r: int| ValueModel::Boolean(v@[r])),
        Column::Int64(v) => Seq::new(v@.len(), |r: int| ValueModel::Int64(v@[r])),
        Column::Uint64(v) => Seq::new(v@.len(), |r: int| ValueModel::Uint64(v@[r])),
        Column::Float64(v) => Seq::new(v@.len(), |r: int| ValueModel::Float64(v@[r]@)),
        Column::Text(v) => Seq::new(v@.len(), |r: int| ValueModel::Text(v@[r]@)),
        Column::Blob(v) => Seq::new(v@.len(), |r: int| ValueModel::Blob(v@[r]@)),
        Column::Int32(v) => Seq::new(v@.len(), |r: int| ValueModel::Int32(v@[r])),
        Column::Timestamp(v) => Seq::new(v@.len(), |r: int| ValueModel::Timestamp(v@[r])),
        Column::Int8(v) => Seq::new(v@.len(), |r: int| ValueModel::Int8(v@[r])),
        Column::Int16(v) => Seq::new(v@.len(), |r: int| ValueModel::Int16(v@[r])),
        Column::Uint8(v) => Seq::new(v@.len(), |r: int| ValueModel::Uint8(v@[r])),
        Column::Uint16(v) => Seq::new(v@.len(), |r: int| ValueModel::Uint16(v@[r])),
        Column::Uint32(v) => Seq::new(v@.len(), |r: int| ValueModel::Uint32(v@[r])),
        Column::Float32(v) => Seq::new(v@.len(), |r: int| ValueModel::Float32(v@[r]@)),
        Column::Date(v) => Seq::new(v@.len(), |r: int| ValueModel::Date(v@[r])),
        Column::Time(v) => Seq::new(v@.len(), |r: int| ValueModel::Time(v@[r])),
        Column::Timestamptz(v) => Seq::new(v@.len(), |r: int| ValueModel::Timestamptz(v@[r])),
        Column::Decimal(v) => Seq::new(v@.len(), |r: int| ValueModel::Decimal(v@[r])),
        Column::Interval(v) => Seq::new(v@.len(), |r: int| ValueModel::Interval(v@[r])),
        Column::Uuid(v) => Seq::new(v@.len(), |r: int| ValueModel::Uuid(v@[r])),
        Column::Hugeint(v) => Seq::new(v@.len(), |r: int| ValueModel::Hugeint(v@[r])),
        Column::Uhugeint(v) => Seq::new(v@.len(), |r: int| ValueModel::Uhugeint(v@[r])),
        Column::Complex(v) => Seq::new(v@.len(), |r: int| ValueModel::Complex(v@[r]@)),
        _ => Seq::empty(),
    }
}

/// The column is made for values of `rep`'s kind; without a kind, for BIGINTs.
pub open spec fn column_for(c: Column, rep: ValueModel) -> bool {
    match rep {
        ValueModel::Null => c is Int64,
        ValueModel::Boolean(_) => c is Boolean,
        ValueModel::Int64(_) => c is Int64,
        ValueModel::Uint64(_) => c is Uint64,
        ValueModel::Float64(_) => c is Float64,
        ValueModel::Text(_) => c is Text,
        ValueModel::Blob(_) => c is Blob,
        ValueModel::Int32(_) => c is Int32,
        ValueModel::Timestamp(_) => c is Timestamp,
        ValueModel::Int8(_) => c is Int8,
        ValueModel::Int16(_) => c is Int16,
        ValueModel::Uint8(_) => c is Uint8,
        ValueModel::Uint16(_) => c is Uint16,
        ValueModel::Uint32(_) => c is Uint32,
        ValueModel::Float32(_) => c is Float32,
        ValueModel::Date(_) => c is Date,
        ValueModel::Time(_) => c is Time,
        ValueModel::Timestamptz(_) => c is Timestamptz,
        ValueModel::Decimal(_) => c is Decimal,
        ValueModel::Interval(_) => c is Interval,
        ValueModel::Uuid(_) => c is Uuid,
        ValueModel::Hugeint(_) => c is Hugeint,
        ValueModel::Uhugeint(_) => c is Uhugeint,
        ValueModel::Complex(_) => c is Complex,
    }
}

fn empty_column(rep: &Duckvalue) -> (c: Column)
    ensures
        column_for(c, rep@),
        cells(c) == Seq::<ValueModel>::empty(),
{
    let c = match rep {
        Duckvalue::Null => Column::Int64(Vec::new()),
        Duckvalue::Boolean(_) => Column::Boolean(Vec::new()),
        Duckvalue::Int64(_) => Column::Int64(Vec::new()),
        Duckvalue::Uint64(_) => Column::Uint64(Vec::new()),
        Duckvalue::Float64(_) => Column::Float64(Vec::new()),
        Duckvalue::Text(_) => Column::Text(Vec::new()),
        Duckvalue::Blob(_) => Column::Blob(Vec::new()),
        Duckvalue::Int32(_) => Column::Int32(Vec::new()),
        Duckvalue::Timestamp(_) => Column::Timestamp(Vec::new()),
        Duckvalue::Int8(_) => Column::Int8(Vec::new()),
        Duckvalue::Int16(_) => Column::Int16(Vec::new()),
        Duckvalue::Uint8(_) => Column::Uint8(Vec::new()),
        Duckvalue::Uint16(_) => Column::Uint16(Vec::new()),
        Duckvalue::Uint32(_) => Column::Uint32(Vec::new()),
        Duckvalue::Float32(_) => Column::Float32(Vec::new()),
        Duckvalue::Date(_) => Column::Date(Vec::new()),
        Duckvalue::Time(_) => Column::Time(Vec::new()),
        Duckvalue::Timestamptz(_) => Column::Timestamptz(Vec::new()),
        Duckvalue::Decimal(_) => Column::Decimal(Vec::new()),
        Duckvalue::Interval(_) => Column::Interval(Vec::new()),
        Duckvalue::Uuid(_) => Column::Uuid(Vec::new()),
        Duckvalue::Hugeint(_) => Column::Hugeint(Vec::new()),
        Duckvalue::Uhugeint(_) => Column::Uhugeint(Vec::new()),
        Duckvalue::Complex(_) => Column::Complex(Vec::new()),
    };
    assert(cells(c) =~= Seq::<ValueModel>::empty());
    c
}

/// Appends a value of the column's own kind, or the filler in its place.
fn push_cell(c: &mut Column, v: &Duckvalue, Ghost(rep): Ghost<ValueModel>) -> (taken: bool)
    requires
        column_for(*old(c), rep),
    ensures
        column_for(*final(c), rep),
        taken == (!(v@ is Null) && column_for(*old(c), v@)),
        cells(*final(c)) == cells(*old(c)).push(
            if taken {
                v@
            } else {
                filler(rep)
            },
        ),
{
    let ghost before = cells(*c);
    let taken: bool = match c {
        Column::Boolean(out) => match v {
            Duckvalue::Boolean(x) => {
                out.push(*x);
                true
            },
            _ => {
                out.push(false);
                false
            },
        },
        Column::Int64(out) => match v {
            Duckvalue::Int64(x) => {
                out.push(*x);
                true
            },
            _ => {
                out.push(0);
                false
            },
        },
        Column::Uint64(out) => match v {
            Duckvalue::Uint64(x) => {
                out.push(*x);
                true
            },
            _ => {
                out.push(0);
                false
            },
        },
        Column::Float64(out) => match v {
            Duckvalue::Float64(x) => {
                out.push(copy_f64(x));
                true
            },
            _ => {
                out.push(
                    Float64value { bits: 0, text: "0".to_owned(), literal: "0.0".to_owned() },
                );
                false
            },
        },
        Column::Text(out) => match v {
            Duckvalue::Text(x) => {
                out.push(x.clone());
                true
            },
            _ => {
                out.push(String::new());
                false
            },
        },
        Column::Blob(out) => match v {
            Duckvalue::Blob(x) => {
                out.push(x.clone());
                true
            },
            _ => {
                out.push(Vec::new());
                false
            },
        },
        Column::Int32(out) => match v {
            Duckvalue::Int32(x) => {
                out.push(*x);
                true
            },
            _ => {
                out.push(0);
                false
            },
        },
        Column::Timestamp(out) => match v {
            Duckvalue::Timestamp(x) => {
                out.push(*x);
                true
            },
            _ => {
                out.push(0);
                false
            },
        },
        Column::Int8(out) => match v {
            Duckvalue::Int8(x) => {
                out.push(*x);
                true
            },
            _ => {
                out.push(0);
                false
            },
        },
        Column::Int16(out) => match v {
            Duckvalue::Int16(x) => {
                out.push(*x);
                true
            },
            _ => {
                out.push(0);
                false
            },
        },
        Column::Uint8(out) => match v {
            Duckvalue::Uint8(x) => {
                out.push(*x);
                true
            },
            _ => {
                out.push(0);
                false
            },
        },
        Column::Uint16(out) => match v {
            Duckvalue::Uint16(x) => {
                out.push(*x);
                true
            },
            _ => {
                out.push(0);
                false
            },
        },
        Column::Uint32(out) => match v {
            Duckvalue::Uint32(x) => {
                out.push(*x);
                true
            },
            _ => {
                out.push(0);
                false
            },
        },
        Column::Float32(out) => match v {
            Duckvalue::Float32(x) => {
                out.push(copy_f32(x));
                true
            },
            _ => {
                out.push(
                    Float32value { bits: 0, text: "0".to_owned(), literal: "0.0".to_owned() },
                );
                false
            },
        },
        Column::Date(out) => match v {
            Duckvalue::Date(x) => {
                out.push(*x);
                true
            },
            _ => {
                out.push(0);
                false
            },
        },
        Column::Time(out) => match v {
            Duckvalue::Time(x) => {
                out.push(*x);
                true
            },
            _ => {
                out.push(0);
                false
            },
        },
        Column::Timestamptz(out) => match v {
            Duckvalue::Timestamptz(x) => {
                out.push(*x);
                true
            },
            _ => {
                out.push(0);
                false
            },
        },
        Column::Decimal(out) => match v {
            Duckvalue::Decimal(x) => {
                out.push(*x);
                true
            },
            _ => {
                out.push(Decimalvalue { lower: 0, upper: 0, width: 0, scale: 0 });
                false
            },
        },
        Column::Interval(out) => match v {
            Duckvalue::Interval(x) => {
                out.push(*x);
                true
            },
            _ => {
                out.push(Intervalvalue { months: 0, days: 0, micros: 0 });
                false
            },
        },
        Column::Uuid(out) => match v {
            Duckvalue::Uuid(x) => {
                out.push(*x);
                true
            },
            _ => {
                out.push(Uuidvalue { hi: 0, lo: 0 });
                false
            },
        },
        Column::Hugeint(out) => match v {
            Duckvalue::Hugeint(x) => {
                out.push(*x);
                true
            },
            _ => {
                out.push(Hugeintvalue { lower: 0, upper: 0 });
                false
            },
        },
        Column::Uhugeint(out) => match v {
            Duckvalue::Uhugeint(x) => {
                out.push(*x);
                true
            },
            _ => {
                out.push(Uhugeintvalue { lower: 0, upper: 0 });
                false
            },
        },
        Column::Complex(out) => match v {
            Duckvalue::Complex(x) => {
                out.push(copy_complex(x));
                true
            },
            _ => {
                out.push(Complexvalue { type_expr: String::new(), json: "null".to_owned() });
                false
            },
        },
        _ => false,
    };
    assert(cells(*c) =~= before.push(
        if taken {
            v@
        } else {
            filler(rep)
        },
    ));
    taken
}

/// The first value that is not NULL; NULL when there is none.
pub open spec fn first_value(vals: Seq<ValueModel>) -> ValueModel
    decreases vals.len(),
{
    if vals.len() == 0 {
        ValueModel::Null
    } else if vals[0] is Null {
        first_value(vals.drop_first())
    } else {
        vals[0]
    }
}

/// The value can stand in a column of `rep`'s kind.
pub open spec fn fits(v: ValueModel, rep: ValueModel) -> bool {
    !(v is Null) && same_arm(v, rep)
}

/// The bytes that a bitmap of `n` bits takes.
pub open spec fn bitmap_len(n: int) -> int {
    (n + 7) / 8
}

/// The column of a list of values: its kind is that of the first value that is not
/// NULL; rows of another kind and NULLs hold the filler and are cleared in the
/// bitmap, which is left out when there are none.
pub open spec fn column_of(c: Colvec, vals: Seq<ValueModel>) -> bool {
    let rep = first_value(vals);
    &&& c.rows == vals.len() as u32
    &&& column_for(c.data, rep)
    &&& cells(c.data) == vals.map_values(
        |v: ValueModel|
            if fits(v, rep) {
                v
            } else {
                filler(rep)
            },
    )
    &&& (forall|r: int| 0 <= r < vals.len() ==> fits(#[trigger] vals[r], rep))
        ==> c.validity@.len() == 0
    &&& (exists|r: int| 0 <= r < vals.len() && !fits(#[trigger] vals[r], rep)) ==> {
        &&& c.validity@.len() == bitmap_len(vals.len() as int)
        &&& forall|r: int|
            0 <= r < 8 * c.validity@.len() ==> #[trigger] bit_at(c.validity@, r) == (r >= vals.len()
                || fits(vals[r], rep))
    }
}

/// The bitmap as far as the first `done` of `n` rows are marked.
spec fn marked(validity: Seq<u8>, n: int, done: int, vals: Seq<ValueModel>, rep: ValueModel) -> bool {
    &&& validity.len() == 0 ==> forall|r: int| 0 <= r < done ==> fits(#[trigger] vals[r], rep)
    &&& validity.len() > 0 ==> {
        &&& validity.len() == bitmap_len(n)
        &&& exists|r: int| 0 <= r < done && !fits(#[trigger] vals[r], rep)
        &&& forall|r: int|
            0 <= r < 8 * validity.len() ==> #[trigger] bit_at(validity, r) == (r >= done || fits(
                vals[r],
                rep,
            ))
    }
}

/// Clears the bit of a row, making the bitmap first where there is none.
fn mark_null(
    validity: &mut Vec<u8>,
    n: usize,
    row: usize,
    Ghost(vals): Ghost<Seq<ValueModel>>,
    Ghost(rep): Ghost<ValueModel>,
)
    requires
        row < n == vals.len(),
        marked(old(validity)@, n as int, row as int, vals, rep),
        !fits(vals[row as int], rep),
    ensures
        marked(final(validity)@, n as int, row + 1, vals, rep),
{
    if validity.len() == 0 {
        let size: usize = n / 8 + (if n % 8 != 0 {
            1
        } else {
            0
        });
        *validity = vec![0xFFu8; size];
        assert forall|r: int| 0 <= r < 8 * validity@.len() implies #[trigger] bit_at(validity@, r) by {
            let shift = (r % 8) as u8;
            assert((0xFFu8 >> shift) & 1 != 0) by (bit_vector)
                requires
                    shift < 8,
            ;
            assert(validity@[r / 8] == 0xFFu8);
        }
    }
    let byte: usize = row / 8;
    let shift: u8 = (row % 8) as u8;
    let ghost before = validity@;
    let old_byte: u8 = validity[byte];
    let new_byte: u8 = old_byte & !(1u8 << shift);
    validity.set(byte, new_byte);
    assert forall|r: int| 0 <= r < 8 * validity@.len() implies #[trigger] bit_at(validity@, r) == (r
        != row && bit_at(before, r)) by {
        if r / 8 == byte {
            let s = (r % 8) as u8;
            assert(((old_byte & !(1u8 << shift)) >> s) & 1 != 0 <==> s != shift && (old_byte >> s)
                & 1 != 0) by (bit_vector)
                requires
                    s < 8,
                    shift < 8,
            ;
        }
    }
    assert(!fits(vals[row as int], rep));
    assert(validity@.len() > 0);
}

/// A column of the values that an extension handed back.
pub fn ext_values_to_core_colvec(vals: Vec<extension_types::Duckvalue>) -> (c: Colvec)
    ensures
        column_of(c, views(vals@).map_values(|v: ValueModel| core_value_of(v))),
{
    let n: usize = vals.len();
    let mut core_vals: Vec<Duckvalue> = Vec::new();
    let ghost model = views(vals@).map_values(|v: ValueModel| core_value_of(v));
    for v in it: vals
        invariant
            it.seq() == vals@,
            model == views(vals@).map_values(|v: ValueModel| core_value_of(v)),
            core_vals@.len() == it.index(),
            forall|i: int| 0 <= i < core_vals@.len() ==> (#[trigger] core_vals@[i])@ == model[i],
    {
        core_vals.push(convert_extension_duckvalue_to_core(v));
    }
    let mut k: usize = 0;
    assert(model.skip(0) =~= model);
    while k < n && matches!(core_vals[k], Duckvalue::Null)
        invariant
            n == core_vals@.len() == model.len(),
            k <= n,
            forall|i: int| 0 <= i < core_vals@.len() ==> (#[trigger] core_vals@[i])@ == model[i],
            first_value(model) == first_value(model.skip(k as int)),
        decreases n - k,
    {
        assert(model[k as int] is Null);
        assert(model.skip(k as int).drop_first() =~= model.skip(k + 1));
        k += 1;
    }
    let rep: Duckvalue = if k < n {
        copy_value(&core_vals[k])
    } else {
        Duckvalue::Null
    };
    let ghost kind = first_value(model);
    assert(rep@ == kind) by {
        if k < n {
            assert(!(model[k as int] is Null));
            assert(model.skip(k as int)[0] == model[k as int]);
        }
    }
    let mut data = empty_column(&rep);
    let mut validity: Vec<u8> = Vec::new();
    let mut r: usize = 0;
    while r < n
        invariant
            n == core_vals@.len() == model.len(),
            r <= n,
            kind == first_value(model),
            forall|i: int| 0 <= i < core_vals@.len() ==> (#[trigger] core_vals@[i])@ == model[i],
            column_for(data, kind),
            cells(data).len() == r,
            forall|i: int|
                0 <= i < r ==> #[trigger] cells(data)[i] == (if fits(model[i], kind) {
                    model[i]
                } else {
                    filler(kind)
                }),
            marked(validity@, n as int, r as int, model, kind),
        decreases n - r,
    {
        let ghost before = validity@;
        let taken: bool = push_cell(&mut data, &core_vals[r], Ghost(kind));
        proof {
            if kind is Null {
                lemma_no_value(model, r as int);
            }
            assert(taken == fits(model[r as int], kind));
        }
        if !taken {
            mark_null(&mut validity, n, r, Ghost(model), Ghost(kind));
        } else {
            proof {
                if before.len() > 0 {
                    let w = choose|i: int| 0 <= i < r && !fits(#[trigger] model[i], kind);
                    assert(!fits(model[w], kind));
                }
            }
        }
        r += 1;
    }
    proof {
        assert(cells(data) =~= model.map_values(
            |v: ValueModel|
                if fits(v, kind) {
                    v
                } else {
                    filler(kind)
                },
        ));
    }
    Colvec { data, validity, rows: n as u32 }
}

proof fn lemma_no_value(vals: Seq<ValueModel>, r: int)
    requires
        first_value(vals) is Null,
        0 <= r < vals.len(),
    ensures
        vals[r] is Null,
    decreases vals.len(),
{
    if r > 0 {
        lemma_no_value(vals.drop_first(), r - 1);
    }
}

// ---------------------------------------------------------------------------
// Laws
// ---------------------------------------------------------------------------

/// A column that was built from values reads back as those values: row by row the
/// value itself, or NULL where the value is not of the column's kind.
pub proof fn law_column_reads_back(c: Colvec, vals: Seq<ValueModel>, r: int)
    requires
        column_of(c, vals),
        0 <= r < vals.len(),
    ensures
        valid_at(c.validity@, r) ==> has_cell(c.data, r),
        cell_at(c, r) == (if fits(vals[r], first_value(vals)) {
            vals[r]
        } else {
            ValueModel::Null
        }),
{
    let rep = first_value(vals);
    assert(cells(c.data)[r] == (if fits(vals[r], rep) {
        vals[r]
    } else {
        filler(rep)
    }));
    assert(cells(c.data).len() == vals.len());
    if !fits(vals[r], rep) {
        assert(bit_at(c.validity@, r) == (r >= vals.len() || fits(vals[r], rep)));
    }
    if c.validity@.len() > 0 {
        assert(exists|q: int| 0 <= q < vals.len() && !fits(#[trigger] vals[q], rep));
        assert(r < 8 * c.validity@.len());
        assert(bit_at(c.validity@, r) == (r >= vals.len() || fits(vals[r], rep)));
    }
}

/// Values that are all of one kind or NULL survive the trip through a column.
pub proof fn law_uniform_column_is_lossless(c: Colvec, vals: Seq<ValueModel>)
    requires
        column_of(c, vals),
        forall|i: int, j: int|
            0 <= i < vals.len() && 0 <= j < vals.len() && !(vals[i] is Null) && !(vals[j] is Null)
                ==> same_arm(#[trigger] vals[i], #[trigger] vals[j]),
    ensures
        forall|r: int| 0 <= r < vals.len() ==> #[trigger] cell_at(c, r) == vals[r],
{
    assert forall|r: int| 0 <= r < vals.len() implies #[trigger] cell_at(c, r) == vals[r] by {
        law_column_reads_back(c, vals, r);
        if !(vals[r] is Null) {
            lemma_first_value_is_one(vals, r);
        }
    }
}

proof fn lemma_first_value_is_one(vals: Seq<ValueModel>, r: int)
    requires
        0 <= r < vals.len(),
        !(vals[r] is Null),
    ensures
        exists|i: int| 0 <= i < vals.len() && #[trigger] vals[i] == first_value(vals) && !(vals[i] is Null),
    decreases vals.len(),
{
    if vals[0] is Null {
        lemma_first_value_is_one(vals.drop_first(), r - 1);
        let i = choose|i: int|
            0 <= i < vals.drop_first().len() && #[trigger] vals.drop_first()[i] == first_value(
                vals.drop_first(),
            ) && !(vals.drop_first()[i] is Null);
        assert(vals[i + 1] == first_value(vals));
    } else {
        assert(vals[0] == first_value(vals));
    }
}

/// A row that the bitmap marks as valid reads as a value of the column's kind that holds
/// the element of that row. A nested column reads as a label with its kind, the row and
/// its size.
pub proof fn law_valid_row_is_the_element(c: Colvec, r: int)
    requires
        valid_at(c.validity@, r),
        r >= 0,
    ensures
        match (c.data, cell_at(c, r)) {
            (Column::Boolean(v), ValueModel::Boolean(x)) => v@[r] == x,
            (Column::Int64(v), ValueModel::Int64(x)) => v@[r] == x,
            (Column::Uint64(v), ValueModel::Uint64(x)) => v@[r] == x,
            (Column::Float64(v), ValueModel::Float64(x)) => v@[r].bits == x.bits && v@[r].text@ == x.text && v@[r].literal@ == x.literal,
            (Column::Text(v), ValueModel::Text(x)) => v@[r]@ == x,
            (Column::Blob(v), ValueModel::Blob(x)) => v@[r]@ == x,
            (Column::Int32(v), ValueModel::Int32(x)) => v@[r] == x,
            (Column::Timestamp(v), ValueModel::Timestamp(x)) => v@[r] == x,
            (Column::Int8(v), ValueModel::Int8(x)) => v@[r] == x,
            (Column::Int16(v), ValueModel::Int16(x)) => v@[r] == x,
            (Column::Uint8(v), ValueModel::Uint8(x)) => v@[r] == x,
            (Column::Uint16(v), ValueModel::Uint16(x)) => v@[r] == x,
            (Column::Uint32(v), ValueModel::Uint32(x)) => v@[r] == x,
            (Column::Float32(v), ValueModel::Float32(x)) => v@[r].bits == x.bits && v@[r].text@ == x.text && v@[r].literal@ == x.literal,
            (Column::Date(v), ValueModel::Date(x)) => v@[r] == x,
            (Column::Time(v), ValueModel::Time(x)) => v@[r] == x,
            (Column::Timestamptz(v), ValueModel::Timestamptz(x)) => v@[r] == x,
            (Column::Decimal(v), ValueModel::Decimal(x)) => v@[r] == x,
            (Column::Interval(v), ValueModel::Interval(x)) => v@[r] == x,
            (Column::Uuid(v), ValueModel::Uuid(x)) => v@[r] == x,
            (Column::Hugeint(v), ValueModel::Hugeint(x)) => v@[r] == x,
            (Column::Uhugeint(v), ValueModel::Uhugeint(x)) => v@[r] == x,
            (Column::Complex(v), ValueModel::Complex(x)) => v@[r].type_expr@ == x.type_expr && v@[r].json@ == x.json,
            (Column::ListCol(v), ValueModel::Complex(x)) => x.type_expr == "LIST(row "@ + decimal_of(r)
                + ")"@ && x.json == "{\"kind\":\"list\",\"bytes\":"@ + decimal_of(
                v.encoded@.len() as int,
            ) + "}"@,
            (Column::StructCol(v), ValueModel::Complex(x)) => x.type_expr == "STRUCT(row "@
                + decimal_of(r) + ")"@ && x.json == "{\"kind\":\"struct\",\"bytes\":"@ + decimal_of(
                v.encoded@.len() as int,
            ) + "}"@,
            (Column::MapCol(v), ValueModel::Complex(x)) => x.type_expr == "MAP(row "@ + decimal_of(r)
                + ")"@ && x.json == "{\"kind\":\"map\",\"keys_bytes\":"@ + decimal_of(
                v.keys_encoded@.len() as int,
            ) + ",\"vals_bytes\":"@ + decimal_of(v.vals_encoded@.len() as int) + "}"@,
            (Column::ArrayCol(v), ValueModel::Complex(x)) => x.type_expr == "ARRAY(row "@
                + decimal_of(r) + ")"@ && x.json == "{\"kind\":\"array\",\"size\":"@ + decimal_of(
                v.size as int,
            ) + ",\"bytes\":"@ + decimal_of(v.encoded@.len() as int) + "}"@,
            _ => false,
        },
{
    reveal_strlit("LIST");
    reveal_strlit("STRUCT");
    reveal_strlit("MAP");
    reveal_strlit("ARRAY");
    reveal_strlit("(row ");
    reveal_strlit("LIST(row ");
    reveal_strlit("STRUCT(row ");
    reveal_strlit("MAP(row ");
    reveal_strlit("ARRAY(row ");
    assert("LIST"@ + "(row "@ =~= "LIST(row "@);
    assert("STRUCT"@ + "(row "@ =~= "STRUCT(row "@);
    assert("MAP"@ + "(row "@ =~= "MAP(row "@);
    assert("ARRAY"@ + "(row "@ =~= "ARRAY(row "@);
}

/// The bitmap is read lowest bit first: the eight rows of a byte write the byte in binary,
/// and a row reads as NULL exactly where its bit is zero. Without a byte for it a row is
/// valid.
pub proof fn law_bitmap_marks_the_rows(c: Colvec, i: int)
    requires
        0 <= i < c.validity@.len(),
    ensures
        c.validity@[i] == (if valid_at(c.validity@, 8 * i) { 1int } else { 0 })
            + (if valid_at(c.validity@, 8 * i + 1) { 2int } else { 0 })
            + (if valid_at(c.validity@, 8 * i + 2) { 4int } else { 0 })
            + (if valid_at(c.validity@, 8 * i + 3) { 8int } else { 0 })
            + (if valid_at(c.validity@, 8 * i + 4) { 16int } else { 0 })
            + (if valid_at(c.validity@, 8 * i + 5) { 32int } else { 0 })
            + (if valid_at(c.validity@, 8 * i + 6) { 64int } else { 0 })
            + (if valid_at(c.validity@, 8 * i + 7) { 128int } else { 0 }),
        forall|r: int| r >= 8 * c.validity@.len() ==> #[trigger] valid_at(c.validity@, r),
        forall|r: int|
            0 <= r && !valid_at(c.validity@, r) ==> #[trigger] cell_at(c, r) is Null,
{
    let b: u8 = c.validity@[i];
    assert forall|k: int| 0 <= k < 8 implies #[trigger] valid_at(c.validity@, 8 * i + k) == ((b >> (
    k as u8)) & 1 != 0) by {
        assert((8 * i + k) / 8 == i);
        assert((8 * i + k) % 8 == k);
    }
    assert(valid_at(c.validity@, 8 * i + 0) == ((b >> 0u8) & 1 != 0));
    assert(valid_at(c.validity@, 8 * i + 1) == ((b >> 1u8) & 1 != 0));
    assert(valid_at(c.validity@, 8 * i + 2) == ((b >> 2u8) & 1 != 0));
    assert(valid_at(c.validity@, 8 * i + 3) == ((b >> 3u8) & 1 != 0));
    assert(valid_at(c.validity@, 8 * i + 4) == ((b >> 4u8) & 1 != 0));
    assert(valid_at(c.validity@, 8 * i + 5) == ((b >> 5u8) & 1 != 0));
    assert(valid_at(c.validity@, 8 * i + 6) == ((b >> 6u8) & 1 != 0));
    assert(valid_at(c.validity@, 8 * i + 7) == ((b >> 7u8) & 1 != 0));
    lemma_byte_in_bits(b);
}

proof fn lemma_byte_in_bits(b: u8)
    ensures
        b == (if (b >> 0u8) & 1 != 0 { 1int } else { 0 }) + (if (b >> 1u8) & 1 != 0 { 2int } else { 0 })
            + (if (b >> 2u8) & 1 != 0 { 4int } else { 0 }) + (if (b >> 3u8) & 1 != 0 { 8int } else { 0 })
            + (if (b >> 4u8) & 1 != 0 { 16int } else { 0 }) + (if (b >> 5u8) & 1 != 0 { 32int } else { 0 })
            + (if (b >> 6u8) & 1 != 0 { 64int } else { 0 }) + (if (b >> 7u8) & 1 != 0 { 128int } else { 0 }),
{
    assert(b == (b & 1) + (b & 2) + (b & 4) + (b & 8) + (b & 16) + (b & 32) + (b & 64) + (b & 128))
        by (bit_vector);
    assert((b & 1) == (if (b >> 0u8) & 1 != 0 { 1u8 } else { 0u8 })) by (bit_vector);
    assert((b & 2) == (if (b >> 1u8) & 1 != 0 { 2u8 } else { 0u8 })) by (bit_vector);
    assert((b & 4) == (if (b >> 2u8) & 1 != 0 { 4u8 } else { 0u8 })) by (bit_vector);
    assert((b & 8) == (if (b >> 3u8) & 1 != 0 { 8u8 } else { 0u8 })) by (bit_vector);
    assert((b & 16) == (if (b >> 4u8) & 1 != 0 { 16u8 } else { 0u8 })) by (bit_vector);
    assert((b & 32) == (if (b >> 5u8) & 1 != 0 { 32u8 } else { 0u8 })) by (bit_vector);
    assert((b & 64) == (if (b >> 6u8) & 1 != 0 { 64u8 } else { 0u8 })) by (bit_vector);
    assert((b & 128) == (if (b >> 7u8) & 1 != 0 { 128u8 } else { 0u8 })) by (bit_vector);
}

/// A column that was built from values of one kind and NULLs has the values themselves in
/// its vector, row by row, and marks as valid exactly the rows that are not NULL.
pub proof fn law_built_column_holds_the_values(c: Colvec, vals: Seq<ValueModel>, w: int)
    requires
        column_of(c, vals),
        0 <= w < vals.len(),
        !(vals[w] is Null),
        vals.len() <= u32::MAX,
        forall|r: int|
            0 <= r < vals.len() ==> (#[trigger] vals[r]) is Null || is_kind_of(vals[r], vals[w]),
    ensures
        c.rows == vals.len(),
        forall|r: int| 0 <= r < vals.len() ==> #[trigger] valid_at(c.validity@, r) == !(vals[r] is Null),
        match vals[w] {
            ValueModel::Null => false,
            ValueModel::Boolean(_) => c.data matches Column::Boolean(v) && v@.len() == vals.len() && forall|r: int|
                0 <= r < vals.len() ==> ((#[trigger] vals[r]) is Null || (vals[r] matches ValueModel::Boolean(x) && v@[r] == x)),
            ValueModel::Int64(_) => c.data matches Column::Int64(v) && v@.len() == vals.len() && forall|r: int|
                0 <= r < vals.len() ==> ((#[trigger] vals[r]) is Null || (vals[r] matches ValueModel::Int64(x) && v@[r] == x)),
            ValueModel::Uint64(_) => c.data matches Column::Uint64(v) && v@.len() == vals.len() && forall|r: int|
                0 <= r < vals.len() ==> ((#[trigger] vals[r]) is Null || (vals[r] matches ValueModel::Uint64(x) && v@[r] == x)),
            ValueModel::Float64(_) => c.data matches Column::Float64(v) && v@.len() == vals.len() && forall|r: int|
                0 <= r < vals.len() ==> ((#[trigger] vals[r]) is Null || (vals[r] matches ValueModel::Float64(x) && v@[r].bits == x.bits && v@[r].text@ == x.text && v@[r].literal@ == x.literal)),
            ValueModel::Text(_) => c.data matches Column::Text(v) && v@.len() == vals.len() && forall|r: int|
                0 <= r < vals.len() ==> ((#[trigger] vals[r]) is Null || (vals[r] matches ValueModel::Text(x) && v@[r]@ == x)),
            ValueModel::Blob(_) => c.data matches Column::Blob(v) && v@.len() == vals.len() && forall|r: int|
                0 <= r < vals.len() ==> ((#[trigger] vals[r]) is Null || (vals[r] matches ValueModel::Blob(x) && v@[r]@ == x)),
            ValueModel::Int32(_) => c.data matches Column::Int32(v) && v@.len() == vals.len() && forall|r: int|
                0 <= r < vals.len() ==> ((#[trigger] vals[r]) is Null || (vals[r] matches ValueModel::Int32(x) && v@[r] == x)),
            ValueModel::Timestamp(_) => c.data matches Column::Timestamp(v) && v@.len() == vals.len() && forall|r: int|
                0 <= r < vals.len() ==> ((#[trigger] vals[r]) is Null || (vals[r] matches ValueModel::Timestamp(x) && v@[r] == x)),
            ValueModel::Int8(_) => c.data matches Column::Int8(v) && v@.len() == vals.len() && forall|r: int|
                0 <= r < vals.len() ==> ((#[trigger] vals[r]) is Null || (vals[r] matches ValueModel::Int8(x) && v@[r] == x)),
            ValueModel::Int16(_) => c.data matches Column::Int16(v) && v@.len() == vals.len() && forall|r: int|
                0 <= r < vals.len() ==> ((#[trigger] vals[r]) is Null || (vals[r] matches ValueModel::Int16(x) && v@[r] == x)),
            ValueModel::Uint8(_) => c.data matches Column::Uint8(v) && v@.len() == vals.len() && forall|r: int|
                0 <= r < vals.len() ==> ((#[trigger] vals[r]) is Null || (vals[r] matches ValueModel::Uint8(x) && v@[r] == x)),
            ValueModel::Uint16(_) => c.data matches Column::Uint16(v) && v@.len() == vals.len() && forall|r: int|
                0 <= r < vals.len() ==> ((#[trigger] vals[r]) is Null || (vals[r] matches ValueModel::Uint16(x) && v@[r] == x)),
            ValueModel::Uint32(_) => c.data matches Column::Uint32(v) && v@.len() == vals.len() && forall|r: int|
                0 <= r < vals.len() ==> ((#[trigger] vals[r]) is Null || (vals[r] matches ValueModel::Uint32(x) && v@[r] == x)),
            ValueModel::Float32(_) => c.data matches Column::Float32(v) && v@.len() == vals.len() && forall|r: int|
                0 <= r < vals.len() ==> ((#[trigger] vals[r]) is Null || (vals[r] matches ValueModel::Float32(x) && v@[r].bits == x.bits && v@[r].text@ == x.text && v@[r].literal@ == x.literal)),
            ValueModel::Date(_) => c.data matches Column::Date(v) && v@.len() == vals.len() && forall|r: int|
                0 <= r < vals.len() ==> ((#[trigger] vals[r]) is Null || (vals[r] matches ValueModel::Date(x) && v@[r] == x)),
            ValueModel::Time(_) => c.data matches Column::Time(v) && v@.len() == vals.len() && forall|r: int|
                0 <= r < vals.len() ==> ((#[trigger] vals[r]) is Null || (vals[r] matches ValueModel::Time(x) && v@[r] == x)),
            ValueModel::Timestamptz(_) => c.data matches Column::Timestamptz(v) && v@.len() == vals.len() && forall|r: int|
                0 <= r < vals.len() ==> ((#[trigger] vals[r]) is Null || (vals[r] matches ValueModel::Timestamptz(x) && v@[r] == x)),
            ValueModel::Decimal(_) => c.data matches Column::Decimal(v) && v@.len() == vals.len() && forall|r: int|
                0 <= r < vals.len() ==> ((#[trigger] vals[r]) is Null || (vals[r] matches ValueModel::Decimal(x) && v@[r] == x)),
            ValueModel::Interval(_) => c.data matches Column::Interval(v) && v@.len() == vals.len() && forall|r: int|
                0 <= r < vals.len() ==> ((#[trigger] vals[r]) is Null || (vals[r] matches ValueModel::Interval(x) && v@[r] == x)),
            ValueModel::Uuid(_) => c.data matches Column::Uuid(v) && v@.len() == vals.len() && forall|r: int|
                0 <= r < vals.len() ==> ((#[trigger] vals[r]) is Null || (vals[r] matches ValueModel::Uuid(x) && v@[r] == x)),
            ValueModel::Hugeint(_) => c.data matches Column::Hugeint(v) && v@.len() == vals.len() && forall|r: int|
                0 <= r < vals.len() ==> ((#[trigger] vals[r]) is Null || (vals[r] matches ValueModel::Hugeint(x) && v@[r] == x)),
            ValueModel::Uhugeint(_) => c.data matches Column::Uhugeint(v) && v@.len() == vals.len() && forall|r: int|
                0 <= r < vals.len() ==> ((#[trigger] vals[r]) is Null || (vals[r] matches ValueModel::Uhugeint(x) && v@[r] == x)),
            ValueModel::Complex(_) => c.data matches Column::Complex(v) && v@.len() == vals.len() && forall|r: int|
                0 <= r < vals.len() ==> ((#[trigger] vals[r]) is Null || (vals[r] matches ValueModel::Complex(x) && v@[r].type_expr@ == x.type_expr && v@[r].json@ == x.json)),
        },
{
    lemma_first_value_is_one(vals, w);
    let rep = first_value(vals);
    assert(same_arm(vals[w], rep));
    assert forall|r: int| 0 <= r < vals.len() implies fits(#[trigger] vals[r], rep) == !(vals[r] is Null)
        && (!(vals[r] is Null) ==> cells(c.data)[r] == vals[r]) && cells(c.data).len() == vals.len() by {}
    assert forall|r: int| 0 <= r < vals.len() implies #[trigger] valid_at(c.validity@, r) == !(
    vals[r] is Null) by {
        assert(fits(vals[r], rep) == !(vals[r] is Null));
        if c.validity@.len() > 0 {
            assert(exists|q: int| 0 <= q < vals.len() && !fits(#[trigger] vals[q], rep));
            assert(r < 8 * c.validity@.len());
            assert(bit_at(c.validity@, r) == (r >= vals.len() || fits(vals[r], rep)));
        }
    }
}

/// Both values are of one kind.
pub open spec fn is_kind_of(a: ValueModel, b: ValueModel) -> bool {
    match (a, b) {
        (ValueModel::Null, ValueModel::Null) => true,
        (ValueModel::Boolean(_), ValueModel::Boolean(_)) => true,
        (ValueModel::Int64(_), ValueModel::Int64(_)) => true,
        (ValueModel::Uint64(_), ValueModel::Uint64(_)) => true,
        (ValueModel::Float64(_), ValueModel::Float64(_)) => true,
        (ValueModel::Text(_), ValueModel::Text(_)) => true,
        (ValueModel::Blob(_), ValueModel::Blob(_)) => true,
        (ValueModel::Int32(_), ValueModel::Int32(_)) => true,
        (ValueModel::Timestamp(_), ValueModel::Timestamp(_)) => true,
        (ValueModel::Int8(_), ValueModel::Int8(_)) => true,
        (ValueModel::Int16(_), ValueModel::Int16(_)) => true,
        (ValueModel::Uint8(_), ValueModel::Uint8(_)) => true,
        (ValueModel::Uint16(_), ValueModel::Uint16(_)) => true,
        (ValueModel::Uint32(_), ValueModel::Uint32(_)) => true,
        (ValueModel::Float32(_), ValueModel::Float32(_)) => true,
        (ValueModel::Date(_), ValueModel::Date(_)) => true,
        (ValueModel::Time(_), ValueModel::Time(_)) => true,
        (ValueModel::Timestamptz(_), ValueModel::Timestamptz(_)) => true,
        (ValueModel::Decimal(_), ValueModel::Decimal(_)) => true,
        (ValueModel::Interval(_), ValueModel::Interval(_)) => true,
        (ValueModel::Uuid(_), ValueModel::Uuid(_)) => true,
        (ValueModel::Hugeint(_), ValueModel::Hugeint(_)) => true,
        (ValueModel::Uhugeint(_), ValueModel::Uhugeint(_)) => true,
        (ValueModel::Complex(_), ValueModel::Complex(_)) => true,
        _ => false,
    }
}

/// A column that was built from NULLs alone, or from nothing, reads as NULL in every row.
pub proof fn law_column_of_nulls_is_null(c: Colvec, vals: Seq<ValueModel>)
    requires
        column_of(c, vals),
        forall|r: int| 0 <= r < vals.len() ==> (#[trigger] vals[r]) is Null,
    ensures
        c.data is Int64,
        forall|r: int| 0 <= r < vals.len() ==> #[trigger] cell_at(c, r) is Null,
{
    lemma_all_null(vals);
    assert forall|r: int| 0 <= r < vals.len() implies #[trigger] cell_at(c, r) is Null by {
        law_column_reads_back(c, vals, r);
    }
}

proof fn lemma_all_null(vals: Seq<ValueModel>)
    requires
        forall|r: int| 0 <= r < vals.len() ==> (#[trigger] vals[r]) is Null,
    ensures
        first_value(vals) is Null,
    decreases vals.len(),
{
    if vals.len() > 0 {
        assert(vals[0] is Null);
        assert forall|r: int| 0 <= r < vals.drop_first().len() implies (
        #[trigger] vals.drop_first()[r]) is Null by {
            assert(vals[r + 1] is Null);
        }
        lemma_all_null(vals.drop_first());
    }
}

/// A column is of the kind of the first value that is not NULL. Values of that kind stand in
/// its vector at their rows; the other rows are marked as NULL and hold zero, or what stands
/// for nothing in that kind.
pub proof fn law_column_takes_the_first_kind(c: Colvec, vals: Seq<ValueModel>, w: int)
    requires
        column_of(c, vals),
        0 <= w < vals.len(),
        !(vals[w] is Null),
        forall|i: int| 0 <= i < w ==> (#[trigger] vals[i]) is Null,
    ensures
        forall|r: int|
            0 <= r < vals.len() ==> #[trigger] valid_at(c.validity@, r) == is_kind_of(vals[r], vals[w]),
        match vals[w] {
            ValueModel::Null => false,
            ValueModel::Boolean(_) => c.data matches Column::Boolean(v) && v@.len() == vals.len() && forall|r: int|
                0 <= r < vals.len() ==> (match #[trigger] vals[r] {
                    ValueModel::Boolean(x) => v@[r] == x,
                    _ => !v@[r],
                }),
            ValueModel::Int64(_) => c.data matches Column::Int64(v) && v@.len() == vals.len() && forall|r: int|
                0 <= r < vals.len() ==> (match #[trigger] vals[r] {
                    ValueModel::Int64(x) => v@[r] == x,
                    _ => v@[r] == 0,
                }),
            ValueModel::Uint64(_) => c.data matches Column::Uint64(v) && v@.len() == vals.len() && forall|r: int|
                0 <= r < vals.len() ==> (match #[trigger] vals[r] {
                    ValueModel::Uint64(x) => v@[r] == x,
                    _ => v@[r] == 0,
                }),
            ValueModel::Float64(_) => c.data matches Column::Float64(v) && v@.len() == vals.len() && forall|r: int|
                0 <= r < vals.len() ==> (match #[trigger] vals[r] {
                    ValueModel::Float64(x) => v@[r].bits == x.bits && v@[r].text@ == x.text && v@[r].literal@ == x.literal,
                    _ => v@[r].bits == 0 && v@[r].text@ == "0"@ && v@[r].literal@ == "0.0"@,
                }),
            ValueModel::Text(_) => c.data matches Column::Text(v) && v@.len() == vals.len() && forall|r: int|
                0 <= r < vals.len() ==> (match #[trigger] vals[r] {
                    ValueModel::Text(x) => v@[r]@ == x,
                    _ => v@[r]@.len() == 0,
                }),
            ValueModel::Blob(_) => c.data matches Column::Blob(v) && v@.len() == vals.len() && forall|r: int|
                0 <= r < vals.len() ==> (match #[trigger] vals[r] {
                    ValueModel::Blob(x) => v@[r]@ == x,
                    _ => v@[r]@.len() == 0,
                }),
            ValueModel::Int32(_) => c.data matches Column::Int32(v) && v@.len() == vals.len() && forall|r: int|
                0 <= r < vals.len() ==> (match #[trigger] vals[r] {
                    ValueModel::Int32(x) => v@[r] == x,
                    _ => v@[r] == 0,
                }),
            ValueModel::Timestamp(_) => c.data matches Column::Timestamp(v) && v@.len() == vals.len() && forall|r: int|
                0 <= r < vals.len() ==> (match #[trigger] vals[r] {
                    ValueModel::Timestamp(x) => v@[r] == x,
                    _ => v@[r] == 0,
                }),
            ValueModel::Int8(_) => c.data matches Column::Int8(v) && v@.len() == vals.len() && forall|r: int|
                0 <= r < vals.len() ==> (match #[trigger] vals[r] {
                    ValueModel::Int8(x) => v@[r] == x,
                    _ => v@[r] == 0,
                }),
            ValueModel::Int16(_) => c.data matches Column::Int16(v) && v@.len() == vals.len() && forall|r: int|
                0 <= r < vals.len() ==> (match #[trigger] vals[r] {
                    ValueModel::Int16(x) => v@[r] == x,
                    _ => v@[r] == 0,
                }),
            ValueModel::Uint8(_) => c.data matches Column::Uint8(v) && v@.len() == vals.len() && forall|r: int|
                0 <= r < vals.len() ==> (match #[trigger] vals[r] {
                    ValueModel::Uint8(x) => v@[r] == x,
                    _ => v@[r] == 0,
                }),
            ValueModel::Uint16(_) => c.data matches Column::Uint16(v) && v@.len() == vals.len() && forall|r: int|
                0 <= r < vals.len() ==> (match #[trigger] vals[r] {
                    ValueModel::Uint16(x) => v@[r] == x,
                    _ => v@[r] == 0,
                }),
            ValueModel::Uint32(_) => c.data matches Column::Uint32(v) && v@.len() == vals.len() && forall|r: int|
                0 <= r < vals.len() ==> (match #[trigger] vals[r] {
                    ValueModel::Uint32(x) => v@[r] == x,
                    _ => v@[r] == 0,
                }),
            ValueModel::Float32(_) => c.data matches Column::Float32(v) && v@.len() == vals.len() && forall|r: int|
                0 <= r < vals.len() ==> (match #[trigger] vals[r] {
                    ValueModel::Float32(x) => v@[r].bits == x.bits && v@[r].text@ == x.text && v@[r].literal@ == x.literal,
                    _ => v@[r].bits == 0 && v@[r].text@ == "0"@ && v@[r].literal@ == "0.0"@,
                }),
            ValueModel::Date(_) => c.data matches Column::Date(v) && v@.len() == vals.len() && forall|r: int|
                0 <= r < vals.len() ==> (match #[trigger] vals[r] {
                    ValueModel::Date(x) => v@[r] == x,
                    _ => v@[r] == 0,
                }),
            ValueModel::Time(_) => c.data matches Column::Time(v) && v@.len() == vals.len() && forall|r: int|
                0 <= r < vals.len() ==> (match #[trigger] vals[r] {
                    ValueModel::Time(x) => v@[r] == x,
                    _ => v@[r] == 0,
                }),
            ValueModel::Timestamptz(_) => c.data matches Column::Timestamptz(v) && v@.len() == vals.len() && forall|r: int|
                0 <= r < vals.len() ==> (match #[trigger] vals[r] {
                    ValueModel::Timestamptz(x) => v@[r] == x,
                    _ => v@[r] == 0,
                }),
            ValueModel::Decimal(_) => c.data matches Column::Decimal(v) && v@.len() == vals.len() && forall|r: int|
                0 <= r < vals.len() ==> (match #[trigger] vals[r] {
                    ValueModel::Decimal(x) => v@[r] == x,
                    _ => v@[r].lower == 0 && v@[r].upper == 0 && v@[r].width == 0 && v@[r].scale == 0,
                }),
            ValueModel::Interval(_) => c.data matches Column::Interval(v) && v@.len() == vals.len() && forall|r: int|
                0 <= r < vals.len() ==> (match #[trigger] vals[r] {
                    ValueModel::Interval(x) => v@[r] == x,
                    _ => v@[r].months == 0 && v@[r].days == 0 && v@[r].micros == 0,
                }),
            ValueModel::Uuid(_) => c.data matches Column::Uuid(v) && v@.len() == vals.len() && forall|r: int|
                0 <= r < vals.len() ==> (match #[trigger] vals[r] {
                    ValueModel::Uuid(x) => v@[r] == x,
                    _ => v@[r].hi == 0 && v@[r].lo == 0,
                }),
            ValueModel::Hugeint(_) => c.data matches Column::Hugeint(v) && v@.len() == vals.len() && forall|r: int|
                0 <= r < vals.len() ==> (match #[trigger] vals[r] {
                    ValueModel::Hugeint(x) => v@[r] == x,
                    _ => v@[r].lower == 0 && v@[r].upper == 0,
                }),
            ValueModel::Uhugeint(_) => c.data matches Column::Uhugeint(v) && v@.len() == vals.len() && forall|r: int|
                0 <= r < vals.len() ==> (match #[trigger] vals[r] {
                    ValueModel::Uhugeint(x) => v@[r] == x,
                    _ => v@[r].lower == 0 && v@[r].upper == 0,
                }),
            ValueModel::Complex(_) => c.data matches Column::Complex(v) && v@.len() == vals.len() && forall|r: int|
                0 <= r < vals.len() ==> (match #[trigger] vals[r] {
                    ValueModel::Complex(x) => v@[r].type_expr@ == x.type_expr && v@[r].json@ == x.json,
                    _ => v@[r].type_expr@.len() == 0 && v@[r].json@ == "null"@,
                }),
        },
{
    lemma_first_is(vals, w);
    let rep = first_value(vals);
    assert forall|r: int| 0 <= r < vals.len() implies fits(#[trigger] vals[r], rep) == is_kind_of(
        vals[r],
        vals[w],
    ) && cells(c.data)[r] == (if fits(vals[r], rep) {
        vals[r]
    } else {
        filler(rep)
    }) && cells(c.data).len() == vals.len() by {}
    assert forall|r: int| 0 <= r < vals.len() implies #[trigger] valid_at(c.validity@, r) == is_kind_of(
        vals[r],
        vals[w],
    ) by {
        assert(fits(vals[r], rep) == is_kind_of(vals[r], vals[w]));
        if c.validity@.len() > 0 {
            assert(exists|q: int| 0 <= q < vals.len() && !fits(#[trigger] vals[q], rep));
            assert(r < 8 * c.validity@.len());
            assert(bit_at(c.validity@, r) == (r >= vals.len() || fits(vals[r], rep)));
        }
    }
}

proof fn lemma_first_is(vals: Seq<ValueModel>, w: int)
    requires
        0 <= w < vals.len(),
        !(vals[w] is Null),
        forall|i: int| 0 <= i < w ==> (#[trigger] vals[i]) is Null,
    ensures
        first_value(vals) == vals[w],
    decreases w,
{
    if w > 0 {
        let rest = vals.drop_first();
        assert(vals[0] is Null);
        assert forall|i: int| 0 <= i < w - 1 implies (#[trigger] rest[i]) is Null by {
            assert(vals[i + 1] is Null);
        }
        assert(rest[w - 1] == vals[w]);
        lemma_first_is(rest, w - 1);
    }
}

/// A batch has as many rows as its first column says, and none where it has no column; a
/// column covers rows where each valid one of them has an element.
pub proof fn law_batch_rows(args: Seq<Colvec>, c: Colvec, flags: Vec<bool>, n: int)
    requires
        c.data == Column::Boolean(flags),
        c.validity@.len() == 0,
        n >= 0,
    ensures
        args.len() > 0 ==> batch_rows(args) == args[0].rows,
        args.len() == 0 ==> batch_rows(args) == 0,
        covers(c, n) <==> n <= flags@.len(),
{
    if n > flags@.len() {
        assert(valid_at(c.validity@, flags@.len() as int));
        assert(!has_cell(c.data, flags@.len() as int));
    }
}

} // verus!
