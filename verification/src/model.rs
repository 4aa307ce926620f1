//! What a wire value, type or error is, independent of the side it is on.
//!
//! The core, the command line and the extensions each have their own copy of the
//! same records. The views of all three copies land in the types of this module,
//! so that "the same value on the other side" is plain equality of views.
use vstd::prelude::*;

verus! {

/// A DOUBLE: its IEEE 754 bits, the decimal rendering that is shown for it, and the one
/// that tells it from an integer.
#[derive(Debug)]
pub struct Float64value {
    pub bits: u64,
    pub text: String,
    pub literal: String,
}

/// A FLOAT: its IEEE 754 bits, the decimal rendering that is shown for it, and the one
/// that tells it from an integer.
#[derive(Debug)]
pub struct Float32value {
    pub bits: u32,
    pub text: String,
    pub literal: String,
}

/// A DECIMAL: an unscaled 128-bit integer in two halves, its width and scale.
#[derive(Clone, Copy, Debug, PartialEq, Eq, Structural)]
pub struct Decimalvalue {
    pub lower: u64,
    pub upper: u64,
    pub width: u8,
    pub scale: u8,
}

#[derive(Clone, Copy, Debug, PartialEq, Eq, Structural)]
pub struct Intervalvalue {
    pub months: i32,
    pub days: i32,
    pub micros: i64,
}

#[derive(Clone, Copy, Debug, PartialEq, Eq, Structural)]
pub struct Uuidvalue {
    pub hi: u64,
    pub lo: u64,
}

/// A signed 128-bit integer: `upper * 2^64 + lower`.
#[derive(Clone, Copy, Debug, PartialEq, Eq, Structural)]
pub struct Hugeintvalue {
    pub lower: u64,
    pub upper: i64,
}

/// An unsigned 128-bit integer: `upper * 2^64 + lower`.
#[derive(Clone, Copy, Debug, PartialEq, Eq, Structural)]
pub struct Uhugeintvalue {
    pub lower: u64,
    pub upper: u64,
}

/// A value that has no arm of its own: its SQL type expression and its JSON text.
#[derive(Debug)]
pub struct Complexvalue {
    pub type_expr: String,
    pub json: String,
}

/// The width and scale of a DECIMAL type.
#[derive(Clone, Copy, Debug, PartialEq, Eq, Structural)]
pub struct Decimalshape {
    pub width: u8,
    pub scale: u8,
}

#[verifier::ext_equal]
pub struct Float64Model {
    pub bits: u64,
    pub text: Seq<char>,
    pub literal: Seq<char>,
}

#[verifier::ext_equal]
pub struct Float32Model {
    pub bits: u32,
    pub text: Seq<char>,
    pub literal: Seq<char>,
}

#[verifier::ext_equal]
pub struct ComplexModel {
    pub type_expr: Seq<char>,
    pub json: Seq<char>,
}

impl View for Float64value {
    type V = Float64Model;

    open spec fn view(&self) -> Float64Model {
        Float64Model { bits: self.bits, text: self.text@, literal: self.literal@ }
    }
}

impl View for Float32value {
    type V = Float32Model;

    open spec fn view(&self) -> Float32Model {
        Float32Model { bits: self.bits, text: self.text@, literal: self.literal@ }
    }
}

impl View for Complexvalue {
    type V = ComplexModel;

    open spec fn view(&self) -> ComplexModel {
        ComplexModel { type_expr: self.type_expr@, json: self.json@ }
    }
}

/// A wire value.
#[verifier::ext_equal]
pub enum ValueModel {
    Null,
    Boolean(bool),
    Int64(i64),
    Uint64(u64),
    Float64(Float64Model),
    Text(Seq<char>),
    Blob(Seq<u8>),
    Int32(i32),
    Timestamp(i64),
    Int8(i8),
    Int16(i16),
    Uint8(u8),
    Uint16(u16),
    Uint32(u32),
    Float32(Float32Model),
    Date(i32),
    Time(i64),
    Timestamptz(i64),
    Decimal(Decimalvalue),
    Interval(Intervalvalue),
    Uuid(Uuidvalue),
    Hugeint(Hugeintvalue),
    Uhugeint(Uhugeintvalue),
    Complex(ComplexModel),
}

/// A wire type.
#[verifier::ext_equal]
pub enum TypeModel {
    Boolean,
    Int64,
    Uint64,
    Float64,
    Text,
    Blob,
    Int32,
    Timestamp,
    Int8,
    Int16,
    Uint8,
    Uint16,
    Uint32,
    Float32,
    Date,
    Time,
    Timestamptz,
    Decimal(Decimalshape),
    Interval,
    Uuid,
    Hugeint,
    Uhugeint,
    Complex(Seq<char>),
}

/// A wire error: its kind and its message.
#[verifier::ext_equal]
pub enum ErrorModel {
    Invalidargument(Seq<char>),
    Unsupported(Seq<char>),
    Invalidstate(Seq<char>),
    Io(Seq<char>),
    Internal(Seq<char>),
}

/// A column of a result or of a table: its name and its type.
#[verifier::ext_equal]
pub struct ColumnModel {
    pub name: Seq<char>,
    pub logical: TypeModel,
}

/// A query result: its columns and its rows.
#[verifier::ext_equal]
pub struct ResultModel {
    pub columns: Seq<ColumnModel>,
    pub rows: Seq<Seq<ValueModel>>,
}

/// The message of an error, whatever its kind.
pub open spec fn message_of(e: ErrorModel) -> Seq<char> {
    match e {
        ErrorModel::Invalidargument(m) => m,
        ErrorModel::Unsupported(m) => m,
        ErrorModel::Invalidstate(m) => m,
        ErrorModel::Io(m) => m,
        ErrorModel::Internal(m) => m,
    }
}

/// What a list holds, each element by its view.
pub open spec fn views<T: View>(s: Seq<T>) -> Seq<T::V> {
    s.map_values(|x: T| x@)
}

/// What a list of lists holds, each element by its view.
pub open spec fn rows_of<T: View>(s: Seq<Vec<T>>) -> Seq<Seq<T::V>> {
    s.map_values(|r: Vec<T>| views(r@))
}

/// What an optional value holds, by its view.
pub open spec fn view_opt<T: View>(o: Option<T>) -> Option<T::V> {
    match o {
        Some(x) => Some(x@),
        None => None,
    }
}

/// What a result holds, by its view.
pub open spec fn view_res<T: View, E: View>(r: Result<T, E>) -> Result<T::V, E::V> {
    match r {
        Ok(x) => Ok(x@),
        Err(e) => Err(e@),
    }
}

pub fn copy_f64(v: &Float64value) -> (r: Float64value)
    ensures
        r == *v,
{
    Float64value { bits: v.bits, text: v.text.clone(), literal: v.literal.clone() }
}

pub fn copy_f32(v: &Float32value) -> (r: Float32value)
    ensures
        r == *v,
{
    Float32value { bits: v.bits, text: v.text.clone(), literal: v.literal.clone() }
}

pub fn copy_complex(v: &Complexvalue) -> (r: Complexvalue)
    ensures
        r == *v,
{
    Complexvalue { type_expr: v.type_expr.clone(), json: v.json.clone() }
}

// ---------------------------------------------------------------------------
// Laws
// ---------------------------------------------------------------------------

/// A list of views has the view of each element at the element's place.
pub proof fn law_views_are_by_element<T: View>(s: Seq<T>, rows: Seq<Vec<T>>, i: int, k: int)
    ensures
        views(s).len() == s.len(),
        0 <= i < s.len() ==> views(s)[i] == s[i]@,
        rows_of(rows).len() == rows.len(),
        0 <= i < rows.len() ==> rows_of(rows)[i].len() == rows[i]@.len(),
        0 <= i < rows.len() && 0 <= k < rows[i]@.len() ==> rows_of(rows)[i][k] == rows[i]@[k]@,
{
}

/// The view of an optional value is there where the value is, and that of an outcome is of
/// the outcome's side.
pub proof fn law_views_keep_the_case<T: View, E: View>(o: Option<T>, r: Result<T, E>)
    ensures
        match (o, view_opt(o)) {
            (Some(a), Some(b)) => b == a@,
            (None, None) => true,
            _ => false,
        },
        match (r, view_res(r)) {
            (Ok(a), Ok(b)) => b == a@,
            (Err(a), Err(b)) => b == a@,
            _ => false,
        },
{
}

/// An error's message is what it holds, whatever its kind.
pub proof fn law_messages(m: Seq<char>)
    ensures
        message_of(ErrorModel::Invalidargument(m)) == m,
        message_of(ErrorModel::Unsupported(m)) == m,
        message_of(ErrorModel::Invalidstate(m)) == m,
        message_of(ErrorModel::Io(m)) == m,
        message_of(ErrorModel::Internal(m)) == m,
{
}

} // verus!
