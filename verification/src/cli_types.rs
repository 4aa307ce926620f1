//! Values, types and errors as the command line exchanges them.
use crate::model::{
    views, rows_of, ColumnModel, message_of, ErrorModel, ResultModel, TypeModel, ValueModel,
};
pub use crate::model::{
    Complexvalue, Decimalshape, Decimalvalue, Float32value, Float64value, Hugeintvalue,
    Intervalvalue, Uhugeintvalue, Uuidvalue,
};
use vstd::prelude::*;

verus! {

#[derive(Debug)]
pub enum Duckvalue {
    Null,
    Boolean(bool),
    Int64(i64),
    Uint64(u64),
    Float64(Float64value),
    Text(String),
    Blob(Vec<u8>),
    Int32(i32),
    Timestamp(i64),
    Int8(i8),
    Int16(i16),
    Uint8(u8),
    Uint16(u16),
    Uint32(u32),
    Float32(Float32value),
    Date(i32),
    Time(i64),
    Timestamptz(i64),
    Decimal(Decimalvalue),
    Interval(Intervalvalue),
    Uuid(Uuidvalue),
    Hugeint(Hugeintvalue),
    Uhugeint(Uhugeintvalue),
    Complex(Complexvalue),
}

impl View for Duckvalue {
    type V = ValueModel;

    open spec fn view(&self) -> ValueModel {
        match *self {
            Duckvalue::Null => ValueModel::Null,
            Duckvalue::Boolean(v) => ValueModel::Boolean(v),
            Duckvalue::Int64(v) => ValueModel::Int64(v),
            Duckvalue::Uint64(v) => ValueModel::Uint64(v),
            Duckvalue::Float64(v) => ValueModel::Float64(v@),
            Duckvalue::Text(v) => ValueModel::Text(v@),
            Duckvalue::Blob(v) => ValueModel::Blob(v@),
            Duckvalue::Int32(v) => ValueModel::Int32(v),
            Duckvalue::Timestamp(v) => ValueModel::Timestamp(v),
            Duckvalue::Int8(v) => ValueModel::Int8(v),
            Duckvalue::Int16(v) => ValueModel::Int16(v),
            Duckvalue::Uint8(v) => ValueModel::Uint8(v),
            Duckvalue::Uint16(v) => ValueModel::Uint16(v),
            Duckvalue::Uint32(v) => ValueModel::Uint32(v),
            Duckvalue::Float32(v) => ValueModel::Float32(v@),
            Duckvalue::Date(v) => ValueModel::Date(v),
            Duckvalue::Time(v) => ValueModel::Time(v),
            Duckvalue::Timestamptz(v) => ValueModel::Timestamptz(v),
            Duckvalue::Decimal(v) => ValueModel::Decimal(v),
            Duckvalue::Interval(v) => ValueModel::Interval(v),
            Duckvalue::Uuid(v) => ValueModel::Uuid(v),
            Duckvalue::Hugeint(v) => ValueModel::Hugeint(v),
            Duckvalue::Uhugeint(v) => ValueModel::Uhugeint(v),
            Duckvalue::Complex(v) => ValueModel::Complex(v@),
        }
    }
}

#[derive(Debug)]
pub enum Logicaltype {
    Boolean,
    Int64,
    Uint64,
    Float64,
    Text,
    Blob,
    Int32,
    Timestamp,
    Int8,
    Int16,
    Uint8,
    Uint16,
    Uint32,
    Float32,
    Date,
    Time,
    Timestamptz,
    Decimal(Decimalshape),
    Interval,
    Uuid,
    Hugeint,
    Uhugeint,
    Complex(String),
}

impl View for Logicaltype {
    type V = TypeModel;

    open spec fn view(&self) -> TypeModel {
        match *self {
            Logicaltype::Boolean => TypeModel::Boolean,
            Logicaltype::Int64 => TypeModel::Int64,
            Logicaltype::Uint64 => TypeModel::Uint64,
            Logicaltype::Float64 => TypeModel::Float64,
            Logicaltype::Text => TypeModel::Text,
            Logicaltype::Blob => TypeModel::Blob,
            Logicaltype::Int32 => TypeModel::Int32,
            Logicaltype::Timestamp => TypeModel::Timestamp,
            Logicaltype::Int8 => TypeModel::Int8,
            Logicaltype::Int16 => TypeModel::Int16,
            Logicaltype::Uint8 => TypeModel::Uint8,
            Logicaltype::Uint16 => TypeModel::Uint16,
            Logicaltype::Uint32 => TypeModel::Uint32,
            Logicaltype::Float32 => TypeModel::Float32,
            Logicaltype::Date => TypeModel::Date,
            Logicaltype::Time => TypeModel::Time,
            Logicaltype::Timestamptz => TypeModel::Timestamptz,
            Logicaltype::Decimal(v) => TypeModel::Decimal(v),
            Logicaltype::Interval => TypeModel::Interval,
            Logicaltype::Uuid => TypeModel::Uuid,
            Logicaltype::Hugeint => TypeModel::Hugeint,
            Logicaltype::Uhugeint => TypeModel::Uhugeint,
            Logicaltype::Complex(v) => TypeModel::Complex(v@),
        }
    }
}

#[derive(Debug)]
pub enum Duckerror {
    Invalidargument(String),
    Unsupported(String),
    Invalidstate(String),
    Io(String),
    Internal(String),
}

impl View for Duckerror {
    type V = ErrorModel;

    open spec fn view(&self) -> ErrorModel {
        match *self {
            Duckerror::Invalidargument(m) => ErrorModel::Invalidargument(m@),
            Duckerror::Unsupported(m) => ErrorModel::Unsupported(m@),
            Duckerror::Invalidstate(m) => ErrorModel::Invalidstate(m@),
            Duckerror::Io(m) => ErrorModel::Io(m@),
            Duckerror::Internal(m) => ErrorModel::Internal(m@),
        }
    }
}

#[derive(Debug)]
pub struct Columndef {
    pub name: String,
    pub logical: Logicaltype,
}

impl View for Columndef {
    type V = ColumnModel;

    open spec fn view(&self) -> ColumnModel {
        ColumnModel { name: self.name@, logical: self.logical@ }
    }
}

#[derive(Debug)]
pub struct QueryResult {
    pub columns: Vec<Columndef>,
    pub rows: Vec<Vec<Duckvalue>>,
}

impl View for QueryResult {
    type V = ResultModel;

    open spec fn view(&self) -> ResultModel {
        ResultModel { columns: views(self.columns@), rows: rows_of(self.rows@) }
    }
}

/// A column of a host-registered table function.
#[derive(Debug)]
pub struct ColumnDescriptor {
    pub name: String,
    pub ty: Logicaltype,
}

impl View for ColumnDescriptor {
    type V = ColumnModel;

    open spec fn view(&self) -> ColumnModel {
        ColumnModel { name: self.name@, logical: self.ty@ }
    }
}

/// What an extension may ask to register.
#[derive(Clone, Copy, Debug, PartialEq, Eq, Structural)]
pub enum Capabilitykind {
    Scalar,
    Table,
    Aggregate,
    Pragma,
    Macro,
    Catalog,
    FileFormat,
}

#[derive(Debug)]
pub struct ExtensionInfo {
    pub name: String,
    pub capabilities: Vec<Capabilitykind>,
}

pub fn copy_value(v: &Duckvalue) -> (r: Duckvalue)
    ensures
        r@ == v@,
{
    match v {
        Duckvalue::Null => Duckvalue::Null,
        Duckvalue::Boolean(x) => Duckvalue::Boolean(*x),
        Duckvalue::Int64(x) => Duckvalue::Int64(*x),
        Duckvalue::Uint64(x) => Duckvalue::Uint64(*x),
        Duckvalue::Float64(x) => Duckvalue::Float64(crate::model::copy_f64(x)),
        Duckvalue::Text(x) => Duckvalue::Text(x.clone()),
        Duckvalue::Blob(x) => Duckvalue::Blob(x.clone()),
        Duckvalue::Int32(x) => Duckvalue::Int32(*x),
        Duckvalue::Timestamp(x) => Duckvalue::Timestamp(*x),
        Duckvalue::Int8(x) => Duckvalue::Int8(*x),
        Duckvalue::Int16(x) => Duckvalue::Int16(*x),
        Duckvalue::Uint8(x) => Duckvalue::Uint8(*x),
        Duckvalue::Uint16(x) => Duckvalue::Uint16(*x),
        Duckvalue::Uint32(x) => Duckvalue::Uint32(*x),
        Duckvalue::Float32(x) => Duckvalue::Float32(crate::model::copy_f32(x)),
        Duckvalue::Date(x) => Duckvalue::Date(*x),
        Duckvalue::Time(x) => Duckvalue::Time(*x),
        Duckvalue::Timestamptz(x) => Duckvalue::Timestamptz(*x),
        Duckvalue::Decimal(x) => Duckvalue::Decimal(*x),
        Duckvalue::Interval(x) => Duckvalue::Interval(*x),
        Duckvalue::Uuid(x) => Duckvalue::Uuid(*x),
        Duckvalue::Hugeint(x) => Duckvalue::Hugeint(*x),
        Duckvalue::Uhugeint(x) => Duckvalue::Uhugeint(*x),
        Duckvalue::Complex(x) => Duckvalue::Complex(crate::model::copy_complex(x)),
    }
}

pub fn copy_type(t: &Logicaltype) -> (r: Logicaltype)
    ensures
        r == *t,
{
    match t {
        Logicaltype::Boolean => Logicaltype::Boolean,
        Logicaltype::Int64 => Logicaltype::Int64,
        Logicaltype::Uint64 => Logicaltype::Uint64,
        Logicaltype::Float64 => Logicaltype::Float64,
        Logicaltype::Text => Logicaltype::Text,
        Logicaltype::Blob => Logicaltype::Blob,
        Logicaltype::Int32 => Logicaltype::Int32,
        Logicaltype::Timestamp => Logicaltype::Timestamp,
        Logicaltype::Int8 => Logicaltype::Int8,
        Logicaltype::Int16 => Logicaltype::Int16,
        Logicaltype::Uint8 => Logicaltype::Uint8,
        Logicaltype::Uint16 => Logicaltype::Uint16,
        Logicaltype::Uint32 => Logicaltype::Uint32,
        Logicaltype::Float32 => Logicaltype::Float32,
        Logicaltype::Date => Logicaltype::Date,
        Logicaltype::Time => Logicaltype::Time,
        Logicaltype::Timestamptz => Logicaltype::Timestamptz,
        Logicaltype::Decimal(v) => Logicaltype::Decimal(*v),
        Logicaltype::Interval => Logicaltype::Interval,
        Logicaltype::Uuid => Logicaltype::Uuid,
        Logicaltype::Hugeint => Logicaltype::Hugeint,
        Logicaltype::Uhugeint => Logicaltype::Uhugeint,
        Logicaltype::Complex(v) => Logicaltype::Complex(v.clone()),
    }
}

// ---------------------------------------------------------------------------
// Laws
// ---------------------------------------------------------------------------

/// The view of a value is of the value's kind and holds what the value holds.
pub proof fn law_view_is_the_value(value: Duckvalue)
    ensures
        match (value, value@) {
            (Duckvalue::Null, ValueModel::Null) => true,
            (Duckvalue::Boolean(a), ValueModel::Boolean(b)) => a == b,
            (Duckvalue::Int64(a), ValueModel::Int64(b)) => a == b,
            (Duckvalue::Uint64(a), ValueModel::Uint64(b)) => a == b,
            (Duckvalue::Float64(a), ValueModel::Float64(b)) => a.bits == b.bits && a.text@ == b.text && a.literal@ == b.literal,
            (Duckvalue::Text(a), ValueModel::Text(b)) => a@ == b,
            (Duckvalue::Blob(a), ValueModel::Blob(b)) => a@ == b,
            (Duckvalue::Int32(a), ValueModel::Int32(b)) => a == b,
            (Duckvalue::Timestamp(a), ValueModel::Timestamp(b)) => a == b,
            (Duckvalue::Int8(a), ValueModel::Int8(b)) => a == b,
            (Duckvalue::Int16(a), ValueModel::Int16(b)) => a == b,
            (Duckvalue::Uint8(a), ValueModel::Uint8(b)) => a == b,
            (Duckvalue::Uint16(a), ValueModel::Uint16(b)) => a == b,
            (Duckvalue::Uint32(a), ValueModel::Uint32(b)) => a == b,
            (Duckvalue::Float32(a), ValueModel::Float32(b)) => a.bits == b.bits && a.text@ == b.text && a.literal@ == b.literal,
            (Duckvalue::Date(a), ValueModel::Date(b)) => a == b,
            (Duckvalue::Time(a), ValueModel::Time(b)) => a == b,
            (Duckvalue::Timestamptz(a), ValueModel::Timestamptz(b)) => a == b,
            (Duckvalue::Decimal(a), ValueModel::Decimal(b)) => a == b,
            (Duckvalue::Interval(a), ValueModel::Interval(b)) => a == b,
            (Duckvalue::Uuid(a), ValueModel::Uuid(b)) => a == b,
            (Duckvalue::Hugeint(a), ValueModel::Hugeint(b)) => a == b,
            (Duckvalue::Uhugeint(a), ValueModel::Uhugeint(b)) => a == b,
            (Duckvalue::Complex(a), ValueModel::Complex(b)) => a.type_expr@ == b.type_expr && a.json@ == b.json,
            _ => false,
        },
{
}

/// The view of a type is the type of the same name.
pub proof fn law_view_is_the_type(ty: Logicaltype)
    ensures
        match (ty, ty@) {
            (Logicaltype::Boolean, TypeModel::Boolean) => true,
            (Logicaltype::Int64, TypeModel::Int64) => true,
            (Logicaltype::Uint64, TypeModel::Uint64) => true,
            (Logicaltype::Float64, TypeModel::Float64) => true,
            (Logicaltype::Text, TypeModel::Text) => true,
            (Logicaltype::Blob, TypeModel::Blob) => true,
            (Logicaltype::Int32, TypeModel::Int32) => true,
            (Logicaltype::Timestamp, TypeModel::Timestamp) => true,
            (Logicaltype::Int8, TypeModel::Int8) => true,
            (Logicaltype::Int16, TypeModel::Int16) => true,
            (Logicaltype::Uint8, TypeModel::Uint8) => true,
            (Logicaltype::Uint16, TypeModel::Uint16) => true,
            (Logicaltype::Uint32, TypeModel::Uint32) => true,
            (Logicaltype::Float32, TypeModel::Float32) => true,
            (Logicaltype::Date, TypeModel::Date) => true,
            (Logicaltype::Time, TypeModel::Time) => true,
            (Logicaltype::Timestamptz, TypeModel::Timestamptz) => true,
            (Logicaltype::Interval, TypeModel::Interval) => true,
            (Logicaltype::Uuid, TypeModel::Uuid) => true,
            (Logicaltype::Hugeint, TypeModel::Hugeint) => true,
            (Logicaltype::Uhugeint, TypeModel::Uhugeint) => true,
            (Logicaltype::Decimal(a), TypeModel::Decimal(b)) => a.width == b.width && a.scale == b.scale,
            (Logicaltype::Complex(a), TypeModel::Complex(b)) => a@ == b,
            _ => false,
        },
{
}

/// The view of an error is of the error's kind and holds its message.
pub proof fn law_view_is_the_error(err: Duckerror)
    ensures
        match (err, err@) {
            (Duckerror::Invalidargument(a), ErrorModel::Invalidargument(b)) => a@ == b,
            (Duckerror::Unsupported(a), ErrorModel::Unsupported(b)) => a@ == b,
            (Duckerror::Invalidstate(a), ErrorModel::Invalidstate(b)) => a@ == b,
            (Duckerror::Io(a), ErrorModel::Io(b)) => a@ == b,
            (Duckerror::Internal(a), ErrorModel::Internal(b)) => a@ == b,
            _ => false,
        },
        message_of(err@) == (match err {
            Duckerror::Invalidargument(a) => a@,
            Duckerror::Unsupported(a) => a@,
            Duckerror::Invalidstate(a) => a@,
            Duckerror::Io(a) => a@,
            Duckerror::Internal(a) => a@,
        }),
{
}

/// The view of a column is its name and its type.
pub proof fn law_view_is_the_column(col: Columndef)
    ensures
        col@.name == col.name@,
        col@.logical == col.logical@,
{
}

/// The view of a result shows each column and each cell at its place, and that of a
/// described column its name and its type.
pub proof fn law_view_is_the_result(qr: QueryResult, col: ColumnDescriptor, i: int, k: int)
    ensures
        qr@.columns.len() == qr.columns@.len(),
        0 <= i < qr.columns@.len() ==> qr@.columns[i] == qr.columns@[i]@,
        qr@.rows.len() == qr.rows@.len(),
        0 <= i < qr.rows@.len() ==> qr@.rows[i].len() == qr.rows@[i]@.len(),
        0 <= i < qr.rows@.len() && 0 <= k < qr.rows@[i]@.len() ==> qr@.rows[i][k] == qr.rows@[i]@[k]@,
        col@.name == col.name@,
        col@.logical == col.ty@,
{
}

} // verus!
