//! Conversions between the core's, the command line's and the extensions' copies
//! of values, types and errors.
use crate::cli_types;
use crate::core_types;
use crate::extension_types;
use crate::model::{rows_of, views, ComplexModel, ValueModel};
use crate::text::{decimal_i128, decimal_of, decimal_u128, join, join_of};
use crate::render::cell_text;
use vstd::prelude::*;

verus! {

/// A core value as the command line sees it.
pub fn convert_core_duckvalue(value: core_types::Duckvalue) -> (r: cli_types::Duckvalue)
    ensures
        r@ == value@,
{
    match value {
        core_types::Duckvalue::Null => cli_types::Duckvalue::Null,
        core_types::Duckvalue::Boolean(v) => cli_types::Duckvalue::Boolean(v),
        core_types::Duckvalue::Int64(v) => cli_types::Duckvalue::Int64(v),
        core_types::Duckvalue::Uint64(v) => cli_types::Duckvalue::Uint64(v),
        core_types::Duckvalue::Float64(v) => cli_types::Duckvalue::Float64(v),
        core_types::Duckvalue::Text(v) => cli_types::Duckvalue::Text(v),
        core_types::Duckvalue::Blob(v) => cli_types::Duckvalue::Blob(v),
        core_types::Duckvalue::Int32(v) => cli_types::Duckvalue::Int32(v),
        core_types::Duckvalue::Timestamp(v) => cli_types::Duckvalue::Timestamp(v),
        core_types::Duckvalue::Int8(v) => cli_types::Duckvalue::Int8(v),
        core_types::Duckvalue::Int16(v) => cli_types::Duckvalue::Int16(v),
        core_types::Duckvalue::Uint8(v) => cli_types::Duckvalue::Uint8(v),
        core_types::Duckvalue::Uint16(v) => cli_types::Duckvalue::Uint16(v),
        core_types::Duckvalue::Uint32(v) => cli_types::Duckvalue::Uint32(v),
        core_types::Duckvalue::Float32(v) => cli_types::Duckvalue::Float32(v),
        core_types::Duckvalue::Date(v) => cli_types::Duckvalue::Date(v),
        core_types::Duckvalue::Time(v) => cli_types::Duckvalue::Time(v),
        core_types::Duckvalue::Timestamptz(v) => cli_types::Duckvalue::Timestamptz(v),
        core_types::Duckvalue::Decimal(v) => cli_types::Duckvalue::Decimal(v),
        core_types::Duckvalue::Interval(v) => cli_types::Duckvalue::Interval(v),
        core_types::Duckvalue::Uuid(v) => cli_types::Duckvalue::Uuid(v),
        core_types::Duckvalue::Hugeint(v) => cli_types::Duckvalue::Hugeint(v),
        core_types::Duckvalue::Uhugeint(v) => cli_types::Duckvalue::Uhugeint(v),
        core_types::Duckvalue::Complex(v) => cli_types::Duckvalue::Complex(v),
    }
}

/// A command-line value as the core sees it.
pub fn convert_cli_duckvalue(value: cli_types::Duckvalue) -> (r: core_types::Duckvalue)
    ensures
        r@ == value@,
{
    match value {
        cli_types::Duckvalue::Null => core_types::Duckvalue::Null,
        cli_types::Duckvalue::Boolean(v) => core_types::Duckvalue::Boolean(v),
        cli_types::Duckvalue::Int64(v) => core_types::Duckvalue::Int64(v),
        cli_types::Duckvalue::Uint64(v) => core_types::Duckvalue::Uint64(v),
        cli_types::Duckvalue::Float64(v) => core_types::Duckvalue::Float64(v),
        cli_types::Duckvalue::Text(v) => core_types::Duckvalue::Text(v),
        cli_types::Duckvalue::Blob(v) => core_types::Duckvalue::Blob(v),
        cli_types::Duckvalue::Int32(v) => core_types::Duckvalue::Int32(v),
        cli_types::Duckvalue::Timestamp(v) => core_types::Duckvalue::Timestamp(v),
        cli_types::Duckvalue::Int8(v) => core_types::Duckvalue::Int8(v),
        cli_types::Duckvalue::Int16(v) => core_types::Duckvalue::Int16(v),
        cli_types::Duckvalue::Uint8(v) => core_types::Duckvalue::Uint8(v),
        cli_types::Duckvalue::Uint16(v) => core_types::Duckvalue::Uint16(v),
        cli_types::Duckvalue::Uint32(v) => core_types::Duckvalue::Uint32(v),
        cli_types::Duckvalue::Float32(v) => core_types::Duckvalue::Float32(v),
        cli_types::Duckvalue::Date(v) => core_types::Duckvalue::Date(v),
        cli_types::Duckvalue::Time(v) => core_types::Duckvalue::Time(v),
        cli_types::Duckvalue::Timestamptz(v) => core_types::Duckvalue::Timestamptz(v),
        cli_types::Duckvalue::Decimal(v) => core_types::Duckvalue::Decimal(v),
        cli_types::Duckvalue::Interval(v) => core_types::Duckvalue::Interval(v),
        cli_types::Duckvalue::Uuid(v) => core_types::Duckvalue::Uuid(v),
        cli_types::Duckvalue::Hugeint(v) => core_types::Duckvalue::Hugeint(v),
        cli_types::Duckvalue::Uhugeint(v) => core_types::Duckvalue::Uhugeint(v),
        cli_types::Duckvalue::Complex(v) => core_types::Duckvalue::Complex(v),
    }
}

/// A core value as an extension sees it.
pub fn convert_core_duckvalue_to_extension(value: core_types::Duckvalue) -> (r: extension_types::Duckvalue)
    ensures
        r@ == value@,
{
    match value {
        core_types::Duckvalue::Null => extension_types::Duckvalue::Null,
        core_types::Duckvalue::Boolean(v) => extension_types::Duckvalue::Boolean(v),
        core_types::Duckvalue::Int64(v) => extension_types::Duckvalue::Int64(v),
        core_types::Duckvalue::Uint64(v) => extension_types::Duckvalue::Uint64(v),
        core_types::Duckvalue::Float64(v) => extension_types::Duckvalue::Float64(v),
        core_types::Duckvalue::Text(v) => extension_types::Duckvalue::Text(v),
        core_types::Duckvalue::Blob(v) => extension_types::Duckvalue::Blob(v),
        core_types::Duckvalue::Int32(v) => extension_types::Duckvalue::Int32(v),
        core_types::Duckvalue::Timestamp(v) => extension_types::Duckvalue::Timestamp(v),
        core_types::Duckvalue::Int8(v) => extension_types::Duckvalue::Int8(v),
        core_types::Duckvalue::Int16(v) => extension_types::Duckvalue::Int16(v),
        core_types::Duckvalue::Uint8(v) => extension_types::Duckvalue::Uint8(v),
        core_types::Duckvalue::Uint16(v) => extension_types::Duckvalue::Uint16(v),
        core_types::Duckvalue::Uint32(v) => extension_types::Duckvalue::Uint32(v),
        core_types::Duckvalue::Float32(v) => extension_types::Duckvalue::Float32(v),
        core_types::Duckvalue::Date(v) => extension_types::Duckvalue::Date(v),
        core_types::Duckvalue::Time(v) => extension_types::Duckvalue::Time(v),
        core_types::Duckvalue::Timestamptz(v) => extension_types::Duckvalue::Timestamptz(v),
        core_types::Duckvalue::Decimal(v) => extension_types::Duckvalue::Decimal(v),
        core_types::Duckvalue::Interval(v) => extension_types::Duckvalue::Interval(v),
        core_types::Duckvalue::Uuid(v) => extension_types::Duckvalue::Uuid(v),
        core_types::Duckvalue::Hugeint(v) => extension_types::Duckvalue::Hugeint(v),
        core_types::Duckvalue::Uhugeint(v) => extension_types::Duckvalue::Uhugeint(v),
        core_types::Duckvalue::Complex(v) => extension_types::Duckvalue::Complex(v),
    }
}

/// What the core receives for an extension's value: the 128-bit integers arrive as
/// labelled decimal text, every other value as it is.
pub open spec fn core_value_of(v: ValueModel) -> ValueModel {
    match v {
        ValueModel::Hugeint(h) => ValueModel::Complex(
            ComplexModel { type_expr: "HUGEINT"@, json: decimal_of(h.upper * 0x1_0000_0000_0000_0000 + h.lower) },
        ),
        ValueModel::Uhugeint(h) => ValueModel::Complex(
            ComplexModel { type_expr: "UHUGEINT"@, json: decimal_of(h.upper * 0x1_0000_0000_0000_0000 + h.lower) },
        ),
        _ => v,
    }
}

/// An extension's value as the core sees it.
pub fn convert_extension_duckvalue_to_core(value: extension_types::Duckvalue) -> (r: core_types::Duckvalue)
    ensures
        r@ == core_value_of(value@),
{
    match value {
        extension_types::Duckvalue::Null => core_types::Duckvalue::Null,
        extension_types::Duckvalue::Boolean(v) => core_types::Duckvalue::Boolean(v),
        extension_types::Duckvalue::Int64(v) => core_types::Duckvalue::Int64(v),
        extension_types::Duckvalue::Uint64(v) => core_types::Duckvalue::Uint64(v),
        extension_types::Duckvalue::Float64(v) => core_types::Duckvalue::Float64(v),
        extension_types::Duckvalue::Text(v) => core_types::Duckvalue::Text(v),
        extension_types::Duckvalue::Blob(v) => core_types::Duckvalue::Blob(v),
        extension_types::Duckvalue::Int32(v) => core_types::Duckvalue::Int32(v),
        extension_types::Duckvalue::Timestamp(v) => core_types::Duckvalue::Timestamp(v),
        extension_types::Duckvalue::Int8(v) => core_types::Duckvalue::Int8(v),
        extension_types::Duckvalue::Int16(v) => core_types::Duckvalue::Int16(v),
        extension_types::Duckvalue::Uint8(v) => core_types::Duckvalue::Uint8(v),
        extension_types::Duckvalue::Uint16(v) => core_types::Duckvalue::Uint16(v),
        extension_types::Duckvalue::Uint32(v) => core_types::Duckvalue::Uint32(v),
        extension_types::Duckvalue::Float32(v) => core_types::Duckvalue::Float32(v),
        extension_types::Duckvalue::Date(v) => core_types::Duckvalue::Date(v),
        extension_types::Duckvalue::Time(v) => core_types::Duckvalue::Time(v),
        extension_types::Duckvalue::Timestamptz(v) => core_types::Duckvalue::Timestamptz(v),
        extension_types::Duckvalue::Decimal(v) => core_types::Duckvalue::Decimal(v),
        extension_types::Duckvalue::Interval(v) => core_types::Duckvalue::Interval(v),
        extension_types::Duckvalue::Uuid(v) => core_types::Duckvalue::Uuid(v),
        extension_types::Duckvalue::Hugeint(h) => {
            let v: i128 = h.upper as i128 * 0x1_0000_0000_0000_0000 + h.lower as i128;
            core_types::Duckvalue::Complex(
                core_types::Complexvalue { type_expr: "HUGEINT".to_owned(), json: decimal_i128(v) },
            )
        },
        extension_types::Duckvalue::Uhugeint(h) => {
            let v: u128 = h.upper as u128 * 0x1_0000_0000_0000_0000 + h.lower as u128;
            core_types::Duckvalue::Complex(
                core_types::Complexvalue { type_expr: "UHUGEINT".to_owned(), json: decimal_u128(v) },
            )
        },
        extension_types::Duckvalue::Complex(v) => core_types::Duckvalue::Complex(v),
    }
}

/// A core type as the command line sees it.
pub fn convert_core_logicaltype(ty: core_types::Logicaltype) -> (r: cli_types::Logicaltype)
    ensures
        r@ == ty@,
{
    match ty {
        core_types::Logicaltype::Boolean => cli_types::Logicaltype::Boolean,
        core_types::Logicaltype::Int64 => cli_types::Logicaltype::Int64,
        core_types::Logicaltype::Uint64 => cli_types::Logicaltype::Uint64,
        core_types::Logicaltype::Float64 => cli_types::Logicaltype::Float64,
        core_types::Logicaltype::Text => cli_types::Logicaltype::Text,
        core_types::Logicaltype::Blob => cli_types::Logicaltype::Blob,
        core_types::Logicaltype::Int32 => cli_types::Logicaltype::Int32,
        core_types::Logicaltype::Timestamp => cli_types::Logicaltype::Timestamp,
        core_types::Logicaltype::Int8 => cli_types::Logicaltype::Int8,
        core_types::Logicaltype::Int16 => cli_types::Logicaltype::Int16,
        core_types::Logicaltype::Uint8 => cli_types::Logicaltype::Uint8,
        core_types::Logicaltype::Uint16 => cli_types::Logicaltype::Uint16,
        core_types::Logicaltype::Uint32 => cli_types::Logicaltype::Uint32,
        core_types::Logicaltype::Float32 => cli_types::Logicaltype::Float32,
        core_types::Logicaltype::Date => cli_types::Logicaltype::Date,
        core_types::Logicaltype::Time => cli_types::Logicaltype::Time,
        core_types::Logicaltype::Timestamptz => cli_types::Logicaltype::Timestamptz,
        core_types::Logicaltype::Decimal(v) => cli_types::Logicaltype::Decimal(v),
        core_types::Logicaltype::Interval => cli_types::Logicaltype::Interval,
        core_types::Logicaltype::Uuid => cli_types::Logicaltype::Uuid,
        core_types::Logicaltype::Hugeint => cli_types::Logicaltype::Hugeint,
        core_types::Logicaltype::Uhugeint => cli_types::Logicaltype::Uhugeint,
        core_types::Logicaltype::Complex(v) => cli_types::Logicaltype::Complex(v),
    }
}

/// A command-line type as the core sees it.
pub fn convert_cli_logicaltype_to_core(ty: cli_types::Logicaltype) -> (r: core_types::Logicaltype)
    ensures
        r@ == ty@,
{
    match ty {
        cli_types::Logicaltype::Boolean => core_types::Logicaltype::Boolean,
        cli_types::Logicaltype::Int64 => core_types::Logicaltype::Int64,
        cli_types::Logicaltype::Uint64 => core_types::Logicaltype::Uint64,
        cli_types::Logicaltype::Float64 => core_types::Logicaltype::Float64,
        cli_types::Logicaltype::Text => core_types::Logicaltype::Text,
        cli_types::Logicaltype::Blob => core_types::Logicaltype::Blob,
        cli_types::Logicaltype::Int32 => core_types::Logicaltype::Int32,
        cli_types::Logicaltype::Timestamp => core_types::Logicaltype::Timestamp,
        cli_types::Logicaltype::Int8 => core_types::Logicaltype::Int8,
        cli_types::Logicaltype::Int16 => core_types::Logicaltype::Int16,
        cli_types::Logicaltype::Uint8 => core_types::Logicaltype::Uint8,
        cli_types::Logicaltype::Uint16 => core_types::Logicaltype::Uint16,
        cli_types::Logicaltype::Uint32 => core_types::Logicaltype::Uint32,
        cli_types::Logicaltype::Float32 => core_types::Logicaltype::Float32,
        cli_types::Logicaltype::Date => core_types::Logicaltype::Date,
        cli_types::Logicaltype::Time => core_types::Logicaltype::Time,
        cli_types::Logicaltype::Timestamptz => core_types::Logicaltype::Timestamptz,
        cli_types::Logicaltype::Decimal(v) => core_types::Logicaltype::Decimal(v),
        cli_types::Logicaltype::Interval => core_types::Logicaltype::Interval,
        cli_types::Logicaltype::Uuid => core_types::Logicaltype::Uuid,
        cli_types::Logicaltype::Hugeint => core_types::Logicaltype::Hugeint,
        cli_types::Logicaltype::Uhugeint => core_types::Logicaltype::Uhugeint,
        cli_types::Logicaltype::Complex(v) => core_types::Logicaltype::Complex(v),
    }
}

/// An extension's type as the core sees it.
pub fn convert_extension_logicaltype_to_core(ty: extension_types::Logicaltype) -> (r: core_types::Logicaltype)
    ensures
        r@ == ty@,
{
    match ty {
        extension_types::Logicaltype::Boolean => core_types::Logicaltype::Boolean,
        extension_types::Logicaltype::Int64 => core_types::Logicaltype::Int64,
        extension_types::Logicaltype::Uint64 => core_types::Logicaltype::Uint64,
        extension_types::Logicaltype::Float64 => core_types::Logicaltype::Float64,
        extension_types::Logicaltype::Text => core_types::Logicaltype::Text,
        extension_types::Logicaltype::Blob => core_types::Logicaltype::Blob,
        extension_types::Logicaltype::Int32 => core_types::Logicaltype::Int32,
        extension_types::Logicaltype::Timestamp => core_types::Logicaltype::Timestamp,
        extension_types::Logicaltype::Int8 => core_types::Logicaltype::Int8,
        extension_types::Logicaltype::Int16 => core_types::Logicaltype::Int16,
        extension_types::Logicaltype::Uint8 => core_types::Logicaltype::Uint8,
        extension_types::Logicaltype::Uint16 => core_types::Logicaltype::Uint16,
        extension_types::Logicaltype::Uint32 => core_types::Logicaltype::Uint32,
        extension_types::Logicaltype::Float32 => core_types::Logicaltype::Float32,
        extension_types::Logicaltype::Date => core_types::Logicaltype::Date,
        extension_types::Logicaltype::Time => core_types::Logicaltype::Time,
        extension_types::Logicaltype::Timestamptz => core_types::Logicaltype::Timestamptz,
        extension_types::Logicaltype::Decimal(v) => core_types::Logicaltype::Decimal(v),
        extension_types::Logicaltype::Interval => core_types::Logicaltype::Interval,
        extension_types::Logicaltype::Uuid => core_types::Logicaltype::Uuid,
        extension_types::Logicaltype::Hugeint => core_types::Logicaltype::Hugeint,
        extension_types::Logicaltype::Uhugeint => core_types::Logicaltype::Uhugeint,
        extension_types::Logicaltype::Complex(v) => core_types::Logicaltype::Complex(v),
    }
}

/// A core type as an extension sees it.
pub fn convert_core_logicaltype_to_extension(ty: core_types::Logicaltype) -> (r: extension_types::Logicaltype)
    ensures
        r@ == ty@,
{
    match ty {
        core_types::Logicaltype::Boolean => extension_types::Logicaltype::Boolean,
        core_types::Logicaltype::Int64 => extension_types::Logicaltype::Int64,
        core_types::Logicaltype::Uint64 => extension_types::Logicaltype::Uint64,
        core_types::Logicaltype::Float64 => extension_types::Logicaltype::Float64,
        core_types::Logicaltype::Text => extension_types::Logicaltype::Text,
        core_types::Logicaltype::Blob => extension_types::Logicaltype::Blob,
        core_types::Logicaltype::Int32 => extension_types::Logicaltype::Int32,
        core_types::Logicaltype::Timestamp => extension_types::Logicaltype::Timestamp,
        core_types::Logicaltype::Int8 => extension_types::Logicaltype::Int8,
        core_types::Logicaltype::Int16 => extension_types::Logicaltype::Int16,
        core_types::Logicaltype::Uint8 => extension_types::Logicaltype::Uint8,
        core_types::Logicaltype::Uint16 => extension_types::Logicaltype::Uint16,
        core_types::Logicaltype::Uint32 => extension_types::Logicaltype::Uint32,
        core_types::Logicaltype::Float32 => extension_types::Logicaltype::Float32,
        core_types::Logicaltype::Date => extension_types::Logicaltype::Date,
        core_types::Logicaltype::Time => extension_types::Logicaltype::Time,
        core_types::Logicaltype::Timestamptz => extension_types::Logicaltype::Timestamptz,
        core_types::Logicaltype::Decimal(v) => extension_types::Logicaltype::Decimal(v),
        core_types::Logicaltype::Interval => extension_types::Logicaltype::Interval,
        core_types::Logicaltype::Uuid => extension_types::Logicaltype::Uuid,
        core_types::Logicaltype::Hugeint => extension_types::Logicaltype::Hugeint,
        core_types::Logicaltype::Uhugeint => extension_types::Logicaltype::Uhugeint,
        core_types::Logicaltype::Complex(v) => extension_types::Logicaltype::Complex(v),
    }
}

/// A core error as the command line sees it.
pub fn convert_core_duckerror(err: core_types::Duckerror) -> (r: cli_types::Duckerror)
    ensures
        r@ == err@,
{
    match err {
        core_types::Duckerror::Invalidargument(m) => cli_types::Duckerror::Invalidargument(m),
        core_types::Duckerror::Unsupported(m) => cli_types::Duckerror::Unsupported(m),
        core_types::Duckerror::Invalidstate(m) => cli_types::Duckerror::Invalidstate(m),
        core_types::Duckerror::Io(m) => cli_types::Duckerror::Io(m),
        core_types::Duckerror::Internal(m) => cli_types::Duckerror::Internal(m),
    }
}

/// An extension's error as the core sees it.
pub fn convert_extension_duckerror_to_core(err: extension_types::Duckerror) -> (r: core_types::Duckerror)
    ensures
        r@ == err@,
{
    match err {
        extension_types::Duckerror::Invalidargument(m) => core_types::Duckerror::Invalidargument(m),
        extension_types::Duckerror::Unsupported(m) => core_types::Duckerror::Unsupported(m),
        extension_types::Duckerror::Invalidstate(m) => core_types::Duckerror::Invalidstate(m),
        extension_types::Duckerror::Io(m) => core_types::Duckerror::Io(m),
        extension_types::Duckerror::Internal(m) => core_types::Duckerror::Internal(m),
    }
}

/// A core error as an extension sees it.
pub fn convert_core_duckerror_to_extension(err: core_types::Duckerror) -> (r: extension_types::Duckerror)
    ensures
        r@ == err@,
{
    match err {
        core_types::Duckerror::Invalidargument(m) => extension_types::Duckerror::Invalidargument(m),
        core_types::Duckerror::Unsupported(m) => extension_types::Duckerror::Unsupported(m),
        core_types::Duckerror::Invalidstate(m) => extension_types::Duckerror::Invalidstate(m),
        core_types::Duckerror::Io(m) => extension_types::Duckerror::Io(m),
        core_types::Duckerror::Internal(m) => extension_types::Duckerror::Internal(m),
    }
}

/// The cli capability of the same name.
pub open spec fn cli_capability(kind: core_types::Capabilitykind) -> cli_types::Capabilitykind {
    match kind {
        core_types::Capabilitykind::Scalar => cli_types::Capabilitykind::Scalar,
        core_types::Capabilitykind::Table => cli_types::Capabilitykind::Table,
        core_types::Capabilitykind::Aggregate => cli_types::Capabilitykind::Aggregate,
        core_types::Capabilitykind::Pragma => cli_types::Capabilitykind::Pragma,
        core_types::Capabilitykind::Macro => cli_types::Capabilitykind::Macro,
        core_types::Capabilitykind::Catalog => cli_types::Capabilitykind::Catalog,
        core_types::Capabilitykind::FileFormat => cli_types::Capabilitykind::FileFormat,
    }
}

/// A core capability as the command line names it.
pub fn convert_core_capabilitykind(kind: core_types::Capabilitykind) -> (r: cli_types::Capabilitykind)
    ensures
        r == cli_capability(kind),
{
    match kind {
        core_types::Capabilitykind::Scalar => cli_types::Capabilitykind::Scalar,
        core_types::Capabilitykind::Table => cli_types::Capabilitykind::Table,
        core_types::Capabilitykind::Aggregate => cli_types::Capabilitykind::Aggregate,
        core_types::Capabilitykind::Pragma => cli_types::Capabilitykind::Pragma,
        core_types::Capabilitykind::Macro => cli_types::Capabilitykind::Macro,
        core_types::Capabilitykind::Catalog => cli_types::Capabilitykind::Catalog,
        core_types::Capabilitykind::FileFormat => cli_types::Capabilitykind::FileFormat,
    }
}

/// The core capability of the same name.
pub open spec fn core_capability(kind: cli_types::Capabilitykind) -> core_types::Capabilitykind {
    match kind {
        cli_types::Capabilitykind::Scalar => core_types::Capabilitykind::Scalar,
        cli_types::Capabilitykind::Table => core_types::Capabilitykind::Table,
        cli_types::Capabilitykind::Aggregate => core_types::Capabilitykind::Aggregate,
        cli_types::Capabilitykind::Pragma => core_types::Capabilitykind::Pragma,
        cli_types::Capabilitykind::Macro => core_types::Capabilitykind::Macro,
        cli_types::Capabilitykind::Catalog => core_types::Capabilitykind::Catalog,
        cli_types::Capabilitykind::FileFormat => core_types::Capabilitykind::FileFormat,
    }
}

/// A command-line capability as the core names it.
pub fn convert_cli_capability(kind: cli_types::Capabilitykind) -> (r: core_types::Capabilitykind)
    ensures
        r == core_capability(kind),
{
    match kind {
        cli_types::Capabilitykind::Scalar => core_types::Capabilitykind::Scalar,
        cli_types::Capabilitykind::Table => core_types::Capabilitykind::Table,
        cli_types::Capabilitykind::Aggregate => core_types::Capabilitykind::Aggregate,
        cli_types::Capabilitykind::Pragma => core_types::Capabilitykind::Pragma,
        cli_types::Capabilitykind::Macro => core_types::Capabilitykind::Macro,
        cli_types::Capabilitykind::Catalog => core_types::Capabilitykind::Catalog,
        cli_types::Capabilitykind::FileFormat => core_types::Capabilitykind::FileFormat,
    }
}

pub fn convert_core_columndef(col: core_types::Columndef) -> (r: cli_types::Columndef)
    ensures
        r@ == col@,
{
    cli_types::Columndef { name: col.name, logical: convert_core_logicaltype(col.logical) }
}

pub fn convert_core_row(row: Vec<core_types::Duckvalue>) -> (r: Vec<cli_types::Duckvalue>)
    ensures
        views(r@) == views(row@),
{
    let mut out: Vec<cli_types::Duckvalue> = Vec::new();
    for v in it: row
        invariant
            it.seq() == row@,
            out@.len() == it.index(),
            forall|i: int| 0 <= i < out@.len() ==> (#[trigger] out@[i])@ == row@[i]@,
    {
        out.push(convert_core_duckvalue(v));
    }
    assert(views(out@) =~= views(row@));
    out
}

/// A core result as the command line sees it: the same columns and rows.
pub fn convert_core_query_result(result: core_types::QueryResult) -> (r: cli_types::QueryResult)
    ensures
        r@ == result@,
{
    let mut columns: Vec<cli_types::Columndef> = Vec::new();
    let ghost cols = result.columns@;
    let ghost rows0 = result.rows@;
    for c in it: result.columns
        invariant
            it.seq() == cols,
            columns@.len() == it.index(),
            forall|i: int| 0 <= i < columns@.len() ==> (#[trigger] columns@[i])@ == cols[i]@,
    {
        columns.push(convert_core_columndef(c));
    }
    let mut rows: Vec<Vec<cli_types::Duckvalue>> = Vec::new();
    for row in it: result.rows
        invariant
            it.seq() == rows0,
            rows@.len() == it.index(),
            forall|i: int|
                0 <= i < rows@.len() ==> views((#[trigger] rows@[i])@) == views(rows0[i]@),
    {
        rows.push(convert_core_row(row));
    }
    assert(views(columns@) =~= views(cols));
    assert(rows_of(rows@) =~= rows_of(rows0));
    cli_types::QueryResult { columns, rows }
}

/// A column of a host-registered table function, as the core sees it.
pub fn convert_cli_columndescriptor_to_core(col: cli_types::ColumnDescriptor) -> (r:
    core_types::ColumnDescriptor)
    ensures
        r@ == col@,
{
    core_types::ColumnDescriptor { name: col.name, ty: convert_cli_logicaltype_to_core(col.ty) }
}

pub fn convert_extension_columndef_to_core(col: extension_types::Columndef) -> (r:
    core_types::Columndef)
    ensures
        r@ == col@,
{
    core_types::Columndef { name: col.name, logical: convert_extension_logicaltype_to_core(col.logical) }
}

pub fn convert_core_columndef_to_extension(col: core_types::Columndef) -> (r:
    extension_types::Columndef)
    ensures
        r@ == col@,
{
    extension_types::Columndef {
        name: col.name,
        logical: convert_core_logicaltype_to_extension(col.logical),
    }
}

/// The description of a core extension, as the command line sees it.
pub fn convert_core_extension_info(info: core_types::ExtensionInfo) -> (r: cli_types::ExtensionInfo)
    ensures
        r.name@ == info.name@,
        r.capabilities@ == info.capabilities@.map_values(
            |k: core_types::Capabilitykind| cli_capability(k),
        ),
{
    let mut capabilities: Vec<cli_types::Capabilitykind> = Vec::new();
    let ghost wanted = info.capabilities@;
    for k in it: info.capabilities
        invariant
            it.seq() == wanted,
            capabilities@.len() == it.index(),
            forall|i: int| 0 <= i < capabilities@.len() ==> #[trigger] capabilities@[i] == cli_capability(wanted[i]),
    {
        capabilities.push(convert_core_capabilitykind(k));
    }
    assert(capabilities@ =~= wanted.map_values(|k: core_types::Capabilitykind| cli_capability(k)));
    cli_types::ExtensionInfo { name: info.name, capabilities }
}

/// The rows that an extension handed back, as the core sees them.
pub fn convert_extension_resultset_to_core(result: Vec<Vec<extension_types::Duckvalue>>) -> (r: Vec<
    Vec<core_types::Duckvalue>,
>)
    ensures
        rows_of(r@) == rows_of(result@).map_values(
            |row: Seq<ValueModel>| row.map_values(|v: ValueModel| core_value_of(v)),
        ),
{
    let mut out: Vec<Vec<core_types::Duckvalue>> = Vec::new();
    for row in it: result
        invariant
            it.seq() == result@,
            out@.len() == it.index(),
            forall|i: int|
                0 <= i < out@.len() ==> views((#[trigger] out@[i])@) == views(result@[i]@).map_values(
                    |v: ValueModel| core_value_of(v),
                ),
    {
        out.push(convert_extension_row_to_core(row));
    }
    assert(rows_of(out@) =~= rows_of(result@).map_values(
        |row: Seq<ValueModel>| row.map_values(|v: ValueModel| core_value_of(v)),
    ));
    out
}

/// One row that an extension handed back, as the core sees it.
pub fn convert_extension_row_to_core(row: Vec<extension_types::Duckvalue>) -> (r: Vec<
    core_types::Duckvalue,
>)
    ensures
        views(r@) == views(row@).map_values(|v: ValueModel| core_value_of(v)),
{
    let mut out: Vec<core_types::Duckvalue> = Vec::new();
    for v in it: row
        invariant
            it.seq() == row@,
            out@.len() == it.index(),
            forall|i: int| 0 <= i < out@.len() ==> (#[trigger] out@[i])@ == core_value_of(row@[i]@),
    {
        out.push(convert_extension_duckvalue_to_core(v));
    }
    assert(views(out@) =~= views(row@).map_values(|v: ValueModel| core_value_of(v)));
    out
}

/// The word for a capability in diagnostics.
pub open spec fn capability_name(kind: cli_types::Capabilitykind) -> Seq<char> {
    match kind {
        cli_types::Capabilitykind::Scalar => "scalar"@,
        cli_types::Capabilitykind::Table => "table"@,
        cli_types::Capabilitykind::Aggregate => "aggregate"@,
        cli_types::Capabilitykind::Pragma => "pragma"@,
        cli_types::Capabilitykind::Macro => "macro"@,
        cli_types::Capabilitykind::Catalog => "catalog"@,
        cli_types::Capabilitykind::FileFormat => "file-format"@,
    }
}

pub fn describe_cli_capability(kind: cli_types::Capabilitykind) -> (r: &'static str)
    ensures
        r@ == capability_name(kind),
{
    match kind {
        cli_types::Capabilitykind::Scalar => "scalar",
        cli_types::Capabilitykind::Table => "table",
        cli_types::Capabilitykind::Aggregate => "aggregate",
        cli_types::Capabilitykind::Pragma => "pragma",
        cli_types::Capabilitykind::Macro => "macro",
        cli_types::Capabilitykind::Catalog => "catalog",
        cli_types::Capabilitykind::FileFormat => "file-format",
    }
}

/// The capabilities by name, separated by commas; `none` when there are none.
pub fn summarize_cli_capabilities(caps: &Vec<cli_types::Capabilitykind>) -> (r: String)
    ensures
        r@ == if caps@.len() == 0 {
            "none"@
        } else {
            join_of(caps@.map_values(|k: cli_types::Capabilitykind| capability_name(k)), ", "@)
        },
{
    if caps.len() == 0 {
        return "none".to_owned();
    }
    let mut parts: Vec<String> = Vec::new();
    let mut i: usize = 0;
    while i < caps.len()
        invariant
            i <= caps@.len(),
            parts@.len() == i,
            forall|j: int| 0 <= j < i ==> (#[trigger] parts@[j])@ == capability_name(caps@[j]),
        decreases caps@.len() - i,
    {
        parts.push(describe_cli_capability(caps[i]).to_owned());
        i += 1;
    }
    assert(views(parts@) =~= caps@.map_values(
        |k: cli_types::Capabilitykind| capability_name(k),
    ));
    join(&parts, ", ")
}

// ---------------------------------------------------------------------------
// Laws
// ---------------------------------------------------------------------------

/// A value of the core that goes out to an extension and comes back is the value
/// that was sent, except that a 128-bit integer comes back as labelled decimal text.
pub proof fn law_core_value_survives_an_extension(v: ValueModel)
    requires
        !(v is Hugeint),
        !(v is Uhugeint),
    ensures
        core_value_of(v) == v,
{
}

/// What reaches the core never holds a first-class 128-bit integer.
pub proof fn law_extension_values_reach_the_core_without_hugeints(v: ValueModel)
    ensures
        !(core_value_of(v) is Hugeint),
        !(core_value_of(v) is Uhugeint),
        core_value_of(core_value_of(v)) == core_value_of(v),
{
}

/// Naming a capability on the other side and back gives the same capability.
pub proof fn law_capabilities_round_trip(a: core_types::Capabilitykind, b: cli_types::Capabilitykind)
    ensures
        core_capability(cli_capability(a)) == a,
        cli_capability(core_capability(b)) == b,
{
}

/// A huge integer reaches the core as its decimal digits under the name of its type.
pub proof fn law_huge_integers_travel_as_digits(v: ValueModel)
    ensures
        match (v, core_value_of(v)) {
            (ValueModel::Hugeint(h), ValueModel::Complex(c)) => c.type_expr == "HUGEINT"@ && c.json
                == decimal_of(h.upper * 0x1_0000_0000_0000_0000 + h.lower) && c.json == cell_text(v),
            (ValueModel::Uhugeint(h), ValueModel::Complex(c)) => c.type_expr == "UHUGEINT"@ && c.json
                == decimal_of(h.upper * 0x1_0000_0000_0000_0000 + h.lower) && c.json == cell_text(v),
            (ValueModel::Hugeint(_), _) => false,
            (ValueModel::Uhugeint(_), _) => false,
            (_, w) => w == v,
        },
{
}

/// A kind of capability keeps its name on both sides, and each has a name of its own.
pub proof fn law_capabilities_keep_their_names(kind: core_types::Capabilitykind)
    ensures
        match (kind, cli_capability(kind)) {
            (core_types::Capabilitykind::Scalar, cli_types::Capabilitykind::Scalar) => true,
            (core_types::Capabilitykind::Table, cli_types::Capabilitykind::Table) => true,
            (core_types::Capabilitykind::Aggregate, cli_types::Capabilitykind::Aggregate) => true,
            (core_types::Capabilitykind::Pragma, cli_types::Capabilitykind::Pragma) => true,
            (core_types::Capabilitykind::Macro, cli_types::Capabilitykind::Macro) => true,
            (core_types::Capabilitykind::Catalog, cli_types::Capabilitykind::Catalog) => true,
            (core_types::Capabilitykind::FileFormat, cli_types::Capabilitykind::FileFormat) => true,
            _ => false,
        },
        capability_name(cli_capability(kind)) == (match kind {
            core_types::Capabilitykind::Scalar => "scalar"@,
            core_types::Capabilitykind::Table => "table"@,
            core_types::Capabilitykind::Aggregate => "aggregate"@,
            core_types::Capabilitykind::Pragma => "pragma"@,
            core_types::Capabilitykind::Macro => "macro"@,
            core_types::Capabilitykind::Catalog => "catalog"@,
            core_types::Capabilitykind::FileFormat => "file-format"@,
        }),
{
}

} // verus!
