//! The neutral registration records: what an extension declares while it loads,
//! before any engine sees it.
use crate::core_types;
use crate::model::{Decimalshape, TypeModel};
use crate::text::{
    decimal_of, decimal_u128, join_of, law_digits_write_the_number, law_trim_leaves_the_rest,
    trim_of, upper,
};
use crate::sqltype::{all_digits, law_decimal_width_and_scale, law_type_names, sql_type_of};
use vstd::prelude::*;

verus! {

/// A declared type. Nested types keep their structure here.
#[derive(Debug)]
pub enum LogicalType {
    Boolean,
    Int64,
    Uint64,
    Float64,
    Text,
    Blob,
    Int32,
    Timestamp,
    Int8,
    Int16,
    Uint8,
    Uint16,
    Uint32,
    Float32,
    Date,
    Time,
    Timestamptz,
    Decimal { width: u8, scale: u8 },
    Interval,
    Uuid,
    Hugeint,
    UHugeint,
    List(Box<LogicalType>),
    Struct(Vec<(String, LogicalType)>),
    MapOf(Box<LogicalType>, Box<LogicalType>),
    Array(u32, Box<LogicalType>),
    Complex(String),
}

/// The SQL type expression of a declared type.
pub open spec fn type_expr(ty: LogicalType) -> Seq<char>
    decreases ty, 0nat,
{
    match ty {
        LogicalType::Boolean => "BOOLEAN"@,
        LogicalType::Int64 => "BIGINT"@,
        LogicalType::Uint64 => "UBIGINT"@,
        LogicalType::Float64 => "DOUBLE"@,
        LogicalType::Text => "VARCHAR"@,
        LogicalType::Blob => "BLOB"@,
        LogicalType::Int32 => "INTEGER"@,
        LogicalType::Timestamp => "TIMESTAMP"@,
        LogicalType::Int8 => "TINYINT"@,
        LogicalType::Int16 => "SMALLINT"@,
        LogicalType::Uint8 => "UTINYINT"@,
        LogicalType::Uint16 => "USMALLINT"@,
        LogicalType::Uint32 => "UINTEGER"@,
        LogicalType::Float32 => "FLOAT"@,
        LogicalType::Date => "DATE"@,
        LogicalType::Time => "TIME"@,
        LogicalType::Timestamptz => "TIMESTAMPTZ"@,
        LogicalType::Interval => "INTERVAL"@,
        LogicalType::Uuid => "UUID"@,
        LogicalType::Hugeint => "HUGEINT"@,
        LogicalType::UHugeint => "UHUGEINT"@,
        LogicalType::Decimal { width, scale } => "DECIMAL("@ + decimal_of(width as int) + ", "@
            + decimal_of(scale as int) + ")"@,
        LogicalType::List(elem) => type_expr(*elem) + "[]"@,
        LogicalType::Struct(fields) => "STRUCT("@ + fields_expr(fields, fields@.len()) + ")"@,
        LogicalType::MapOf(k, v) => "MAP("@ + type_expr(*k) + ", "@ + type_expr(*v) + ")"@,
        LogicalType::Array(size, elem) => type_expr(*elem) + "["@ + decimal_of(size as int) + "]"@,
        LogicalType::Complex(expr) => expr@,
    }
}

/// The first `n` fields of a struct type: name and type expression, separated by commas.
pub open spec fn fields_expr(fields: Vec<(String, LogicalType)>, n: nat) -> Seq<char>
    decreases fields, n,
{
    if n == 0 || n > fields@.len() {
        Seq::empty()
    } else {
        let field = fields[n - 1];
        let before = fields_expr(fields, (n - 1) as nat);
        (if n == 1 {
            before
        } else {
            before + ", "@
        }) + field.0@ + " "@ + type_expr(field.1)
    }
}

/// What the core receives for a declared type: nested types travel as their type
/// expression, with a list spelled `LIST(..)` at the outermost level.
pub open spec fn core_type(ty: LogicalType) -> TypeModel {
    match ty {
        LogicalType::Boolean => TypeModel::Boolean,
        LogicalType::Int64 => TypeModel::Int64,
        LogicalType::Uint64 => TypeModel::Uint64,
        LogicalType::Float64 => TypeModel::Float64,
        LogicalType::Text => TypeModel::Text,
        LogicalType::Blob => TypeModel::Blob,
        LogicalType::Int32 => TypeModel::Int32,
        LogicalType::Timestamp => TypeModel::Timestamp,
        LogicalType::Int8 => TypeModel::Int8,
        LogicalType::Int16 => TypeModel::Int16,
        LogicalType::Uint8 => TypeModel::Uint8,
        LogicalType::Uint16 => TypeModel::Uint16,
        LogicalType::Uint32 => TypeModel::Uint32,
        LogicalType::Float32 => TypeModel::Float32,
        LogicalType::Date => TypeModel::Date,
        LogicalType::Time => TypeModel::Time,
        LogicalType::Timestamptz => TypeModel::Timestamptz,
        LogicalType::Interval => TypeModel::Interval,
        LogicalType::Uuid => TypeModel::Uuid,
        LogicalType::Hugeint => TypeModel::Hugeint,
        LogicalType::UHugeint => TypeModel::Uhugeint,
        LogicalType::Decimal { width, scale } => TypeModel::Decimal(Decimalshape { width, scale }),
        LogicalType::List(elem) => TypeModel::Complex("LIST("@ + type_expr(*elem) + ")"@),
        LogicalType::Struct(_) => TypeModel::Complex(type_expr(ty)),
        LogicalType::MapOf(_, _) => TypeModel::Complex(type_expr(ty)),
        LogicalType::Array(_, _) => TypeModel::Complex(type_expr(ty)),
        LogicalType::Complex(expr) => TypeModel::Complex(expr@),
    }
}

pub fn neutral_logicaltype_to_type_expr(ty: &LogicalType) -> (r: String)
    ensures
        r@ == type_expr(*ty),
    decreases *ty, 0nat,
{
    match ty {
        LogicalType::Boolean => "BOOLEAN".to_owned(),
        LogicalType::Int64 => "BIGINT".to_owned(),
        LogicalType::Uint64 => "UBIGINT".to_owned(),
        LogicalType::Float64 => "DOUBLE".to_owned(),
        LogicalType::Text => "VARCHAR".to_owned(),
        LogicalType::Blob => "BLOB".to_owned(),
        LogicalType::Int32 => "INTEGER".to_owned(),
        LogicalType::Timestamp => "TIMESTAMP".to_owned(),
        LogicalType::Int8 => "TINYINT".to_owned(),
        LogicalType::Int16 => "SMALLINT".to_owned(),
        LogicalType::Uint8 => "UTINYINT".to_owned(),
        LogicalType::Uint16 => "USMALLINT".to_owned(),
        LogicalType::Uint32 => "UINTEGER".to_owned(),
        LogicalType::Float32 => "FLOAT".to_owned(),
        LogicalType::Date => "DATE".to_owned(),
        LogicalType::Time => "TIME".to_owned(),
        LogicalType::Timestamptz => "TIMESTAMPTZ".to_owned(),
        LogicalType::Interval => "INTERVAL".to_owned(),
        LogicalType::Uuid => "UUID".to_owned(),
        LogicalType::Hugeint => "HUGEINT".to_owned(),
        LogicalType::UHugeint => "UHUGEINT".to_owned(),
        LogicalType::Decimal { width, scale } => {
            let mut out = "DECIMAL(".to_owned();
            out.append(decimal_u128(*width as u128).as_str());
            out.append(", ");
            out.append(decimal_u128(*scale as u128).as_str());
            out.append(")");
            out
        },
        LogicalType::List(elem) => {
            let mut out = neutral_logicaltype_to_type_expr(elem);
            out.append("[]");
            out
        },
        LogicalType::Struct(fields) => {
            let mut out = "STRUCT(".to_owned();
            out.append(struct_fields(fields).as_str());
            out.append(")");
            out
        },
        LogicalType::MapOf(k, v) => {
            let mut out = "MAP(".to_owned();
            out.append(neutral_logicaltype_to_type_expr(k).as_str());
            out.append(", ");
            out.append(neutral_logicaltype_to_type_expr(v).as_str());
            out.append(")");
            out
        },
        LogicalType::Array(size, elem) => {
            let mut out = neutral_logicaltype_to_type_expr(elem);
            out.append("[");
            out.append(decimal_u128(*size as u128).as_str());
            out.append("]");
            out
        },
        LogicalType::Complex(expr) => expr.clone(),
    }
}

fn struct_fields(fields: &Vec<(String, LogicalType)>) -> (r: String)
    ensures
        r@ == fields_expr(*fields, fields@.len()),
    decreases *fields, fields@.len() + 1,
{
    let mut out = String::new();
    let mut i: usize = 0;
    while i < fields.len()
        invariant
            i <= fields@.len(),
            out@ == fields_expr(*fields, i as nat),
        decreases fields@.len() - i,
    {
        if i > 0 {
            out.append(", ");
        }
        out.append(fields[i].0.as_str());
        out.append(" ");
        out.append(neutral_logicaltype_to_type_expr(&fields[i].1).as_str());
        i += 1;
    }
    out
}

pub fn neutral_logicaltype_to_core(ty: LogicalType) -> (r: core_types::Logicaltype)
    ensures
        r@ == core_type(ty),
{
    match ty {
        LogicalType::Boolean => core_types::Logicaltype::Boolean,
        LogicalType::Int64 => core_types::Logicaltype::Int64,
        LogicalType::Uint64 => core_types::Logicaltype::Uint64,
        LogicalType::Float64 => core_types::Logicaltype::Float64,
        LogicalType::Text => core_types::Logicaltype::Text,
        LogicalType::Blob => core_types::Logicaltype::Blob,
        LogicalType::Int32 => core_types::Logicaltype::Int32,
        LogicalType::Timestamp => core_types::Logicaltype::Timestamp,
        LogicalType::Int8 => core_types::Logicaltype::Int8,
        LogicalType::Int16 => core_types::Logicaltype::Int16,
        LogicalType::Uint8 => core_types::Logicaltype::Uint8,
        LogicalType::Uint16 => core_types::Logicaltype::Uint16,
        LogicalType::Uint32 => core_types::Logicaltype::Uint32,
        LogicalType::Float32 => core_types::Logicaltype::Float32,
        LogicalType::Date => core_types::Logicaltype::Date,
        LogicalType::Time => core_types::Logicaltype::Time,
        LogicalType::Timestamptz => core_types::Logicaltype::Timestamptz,
        LogicalType::Interval => core_types::Logicaltype::Interval,
        LogicalType::Uuid => core_types::Logicaltype::Uuid,
        LogicalType::Hugeint => core_types::Logicaltype::Hugeint,
        LogicalType::UHugeint => core_types::Logicaltype::Uhugeint,
        LogicalType::Decimal { width, scale } => core_types::Logicaltype::Decimal(
            Decimalshape { width, scale },
        ),
        LogicalType::List(elem) => {
            let mut out = "LIST(".to_owned();
            out.append(neutral_logicaltype_to_type_expr(&elem).as_str());
            out.append(")");
            core_types::Logicaltype::Complex(out)
        },
        LogicalType::Complex(expr) => core_types::Logicaltype::Complex(expr),
        other => core_types::Logicaltype::Complex(neutral_logicaltype_to_type_expr(&other)),
    }
}

/// The core's type for a column of a filterable table function.
pub fn neutral_reg_logicaltype_to_core_types(ty: LogicalType) -> (r: core_types::Logicaltype)
    ensures
        r@ == core_type(ty),
{
    neutral_logicaltype_to_core(ty)
}

// ---------------------------------------------------------------------------
// Records
// ---------------------------------------------------------------------------

#[derive(Clone, Debug)]
pub struct FuncArg {
    pub name: Option<String>,
    pub logical: LogicalType,
}

#[derive(Clone, Debug)]
pub struct ColumnDef {
    pub name: String,
    pub logical: LogicalType,
}

#[derive(Clone, Copy, Debug, PartialEq, Eq, Structural)]
pub struct FuncFlags {
    pub deterministic: bool,
    pub commutative: bool,
    pub stateless: bool,
    pub side_effecting: bool,
    pub deprecated: bool,
}

impl Default for FuncFlags {
    fn default() -> (r: FuncFlags)
        ensures
            r == (FuncFlags {
                deterministic: false,
                commutative: false,
                stateless: false,
                side_effecting: false,
                deprecated: false,
            }),
    {
        FuncFlags {
            deterministic: false,
            commutative: false,
            stateless: false,
            side_effecting: false,
            deprecated: false,
        }
    }
}

#[derive(Clone, Debug)]
pub struct FuncOpts {
    pub description: Option<String>,
    pub tags: Vec<String>,
    pub attributes: FuncFlags,
}

#[derive(Clone, Debug)]
pub struct ExtOpts {
    pub description: Option<String>,
    pub tags: Vec<String>,
}

#[derive(Clone, Debug)]
pub struct ScalarReg {
    pub extension: String,
    pub name: String,
    pub arguments: Vec<FuncArg>,
    pub returns: LogicalType,
    pub callback_handle: u32,
    pub options: Option<FuncOpts>,
}

#[derive(Clone, Debug)]
pub struct TableReg {
    pub extension: String,
    pub name: String,
    pub arguments: Vec<FuncArg>,
    pub columns: Vec<ColumnDef>,
    pub callback_handle: u32,
    pub options: Option<ExtOpts>,
}

#[derive(Clone, Debug)]
pub struct AggregateReg {
    pub extension: String,
    pub name: String,
    pub arguments: Vec<FuncArg>,
    pub returns: LogicalType,
    pub callback_handle: u32,
    pub options: Option<FuncOpts>,
}

#[derive(Clone, Debug)]
pub struct MacroReg {
    pub extension: String,
    pub schema: Option<String>,
    pub name: String,
    pub parameters: Vec<String>,
    pub definition_sql: String,
}

#[derive(Debug)]
pub struct ReplacementScanReg {
    pub extension: String,
    pub extensions: Vec<String>,
    pub function_name: String,
}

#[derive(Debug)]
pub struct LogicalTypeReg {
    pub extension: String,
    pub name: String,
    pub physical: String,
}

#[derive(Debug)]
pub struct CastReg {
    pub extension: String,
    pub source: String,
    pub target: String,
    pub callback_handle: u32,
}

/// A storage backend: `ATTACH .. (TYPE <ty_name>)` goes to it.
#[derive(Debug)]
pub struct StorageReg {
    pub extension: String,
    pub ty_name: String,
    pub callback_handle: u32,
}

/// A secret backend for a type, and for one named provider of it or for all.
#[derive(Debug)]
pub struct SecretReg {
    pub extension: String,
    pub ty_name: String,
    pub provider: Option<String>,
    pub callback_handle: u32,
}

/// An option that `SET <name> = <value>` changes.
#[derive(Debug)]
pub struct SettingReg {
    pub extension: String,
    pub name: String,
    pub ty: String,
    pub scope: String,
    pub description: Option<String>,
}

#[derive(Debug)]
pub struct IndexReg {
    pub extension: String,
    pub ty_name: String,
}

#[derive(Debug)]
pub struct FilesReg {
    pub extension: String,
    pub callback_handle: u32,
}

#[derive(Debug)]
pub struct CollationReg {
    pub extension: String,
    pub name: String,
    pub transform_scalar: String,
    pub combinable: bool,
}

/// A pragma, a parser extension or an optimizer rule: a name that is dispatched to
/// one callback of the extension.
#[derive(Debug)]
pub struct NamedCallbackReg {
    pub extension: String,
    pub name: String,
    pub callback_handle: u32,
}

#[derive(Debug)]
pub struct FilterableTableReg {
    pub extension: String,
    pub name: String,
    pub arguments: Vec<FuncArg>,
    pub columns: Vec<ColumnDef>,
    pub callback_handle: u32,
}

/// Everything that was declared and not yet forwarded to the core.
#[derive(Debug)]
pub struct PendingRegistrationsData {
    pub scalars: Vec<ScalarReg>,
    pub tables: Vec<TableReg>,
    pub aggregates: Vec<AggregateReg>,
    pub macros: Vec<MacroReg>,
    pub replacement_scans: Vec<ReplacementScanReg>,
    pub logical_types: Vec<LogicalTypeReg>,
    pub casts: Vec<CastReg>,
    pub storages: Vec<StorageReg>,
    pub secrets: Vec<SecretReg>,
    pub settings: Vec<SettingReg>,
}

/// The same, list by list.
#[verifier::ext_equal]
pub struct PendingModel {
    pub scalars: Seq<ScalarReg>,
    pub tables: Seq<TableReg>,
    pub aggregates: Seq<AggregateReg>,
    pub macros: Seq<MacroReg>,
    pub replacement_scans: Seq<ReplacementScanReg>,
    pub logical_types: Seq<LogicalTypeReg>,
    pub casts: Seq<CastReg>,
    pub storages: Seq<StorageReg>,
    pub secrets: Seq<SecretReg>,
    pub settings: Seq<SettingReg>,
}

impl PendingModel {
    /// Nothing is pending.
    pub open spec fn empty() -> PendingModel {
        PendingModel {
            scalars: Seq::empty(),
            tables: Seq::empty(),
            aggregates: Seq::empty(),
            macros: Seq::empty(),
            replacement_scans: Seq::empty(),
            logical_types: Seq::empty(),
            casts: Seq::empty(),
            storages: Seq::empty(),
            secrets: Seq::empty(),
            settings: Seq::empty(),
        }
    }

    /// What this one holds followed by what the other one holds, list by list.
    pub open spec fn plus(self, other: PendingModel) -> PendingModel {
        PendingModel {
            scalars: self.scalars + other.scalars,
            tables: self.tables + other.tables,
            aggregates: self.aggregates + other.aggregates,
            macros: self.macros + other.macros,
            replacement_scans: self.replacement_scans + other.replacement_scans,
            logical_types: self.logical_types + other.logical_types,
            casts: self.casts + other.casts,
            storages: self.storages + other.storages,
            secrets: self.secrets + other.secrets,
            settings: self.settings + other.settings,
        }
    }
}

/// The batches one after the other, behind a first one.
pub open spec fn gathered(first: PendingModel, batches: Seq<PendingRegistrationsData>) -> PendingModel
    decreases batches.len(),
{
    if batches.len() == 0 {
        first
    } else {
        gathered(first, batches.drop_last()).plus(batches.last()@)
    }
}

impl View for PendingRegistrationsData {
    type V = PendingModel;

    open spec fn view(&self) -> PendingModel {
        PendingModel {
            scalars: self.scalars@,
            tables: self.tables@,
            aggregates: self.aggregates@,
            macros: self.macros@,
            replacement_scans: self.replacement_scans@,
            logical_types: self.logical_types@,
            casts: self.casts@,
            storages: self.storages@,
            secrets: self.secrets@,
            settings: self.settings@,
        }
    }
}

impl PendingRegistrationsData {
    pub fn new() -> (r: PendingRegistrationsData)
        ensures
            r@ == PendingModel::empty(),
    {
        PendingRegistrationsData {
            scalars: Vec::new(),
            tables: Vec::new(),
            aggregates: Vec::new(),
            macros: Vec::new(),
            replacement_scans: Vec::new(),
            logical_types: Vec::new(),
            casts: Vec::new(),
            storages: Vec::new(),
            secrets: Vec::new(),
            settings: Vec::new(),
        }
    }

    /// Appends another batch behind this one.
    pub fn append(&mut self, other: PendingRegistrationsData)
        ensures
            final(self)@ == old(self)@.plus(other@),
    {
        let mut other = other;
        self.scalars.append(&mut other.scalars);
        self.tables.append(&mut other.tables);
        self.aggregates.append(&mut other.aggregates);
        self.macros.append(&mut other.macros);
        self.replacement_scans.append(&mut other.replacement_scans);
        self.logical_types.append(&mut other.logical_types);
        self.casts.append(&mut other.casts);
        self.storages.append(&mut other.storages);
        self.secrets.append(&mut other.secrets);
        self.settings.append(&mut other.settings);
    }
}

pub fn copy_setting(s: &SettingReg) -> (r: SettingReg)
    ensures
        r == *s,
{
    SettingReg {
        extension: s.extension.clone(),
        name: s.name.clone(),
        ty: s.ty.clone(),
        scope: s.scope.clone(),
        description: match &s.description {
            Some(d) => Some(d.clone()),
            None => None,
        },
    }
}

// ---------------------------------------------------------------------------
// Laws
// ---------------------------------------------------------------------------

/// The name of a type that is not nested is read as the very type: what is printed of a
/// type means the type.
pub proof fn law_type_name_means_the_type(ty: LogicalType)
    requires
        !(ty is List) && !(ty is Struct) && !(ty is MapOf) && !(ty is Array) && !(ty is Complex),
    ensures
        sql_type_of(type_expr(ty)) == Ok::<TypeModel, Seq<char>>(core_type(ty)),
{
    law_type_names(type_expr(ty));
    match ty {
        LogicalType::Boolean => {
            reveal_strlit("BOOLEAN");
            lemma_capitals("BOOLEAN"@);
        },
        LogicalType::Int64 => {
            reveal_strlit("BIGINT");
            lemma_capitals("BIGINT"@);
        },
        LogicalType::Uint64 => {
            reveal_strlit("UBIGINT");
            lemma_capitals("UBIGINT"@);
        },
        LogicalType::Float64 => {
            reveal_strlit("DOUBLE");
            lemma_capitals("DOUBLE"@);
        },
        LogicalType::Text => {
            reveal_strlit("VARCHAR");
            lemma_capitals("VARCHAR"@);
        },
        LogicalType::Blob => {
            reveal_strlit("BLOB");
            lemma_capitals("BLOB"@);
        },
        LogicalType::Int32 => {
            reveal_strlit("INTEGER");
            lemma_capitals("INTEGER"@);
        },
        LogicalType::Timestamp => {
            reveal_strlit("TIMESTAMP");
            lemma_capitals("TIMESTAMP"@);
        },
        LogicalType::Int8 => {
            reveal_strlit("TINYINT");
            lemma_capitals("TINYINT"@);
        },
        LogicalType::Int16 => {
            reveal_strlit("SMALLINT");
            lemma_capitals("SMALLINT"@);
        },
        LogicalType::Uint8 => {
            reveal_strlit("UTINYINT");
            lemma_capitals("UTINYINT"@);
        },
        LogicalType::Uint16 => {
            reveal_strlit("USMALLINT");
            lemma_capitals("USMALLINT"@);
        },
        LogicalType::Uint32 => {
            reveal_strlit("UINTEGER");
            lemma_capitals("UINTEGER"@);
        },
        LogicalType::Float32 => {
            reveal_strlit("FLOAT");
            lemma_capitals("FLOAT"@);
        },
        LogicalType::Date => {
            reveal_strlit("DATE");
            lemma_capitals("DATE"@);
        },
        LogicalType::Time => {
            reveal_strlit("TIME");
            lemma_capitals("TIME"@);
        },
        LogicalType::Timestamptz => {
            reveal_strlit("TIMESTAMPTZ");
            lemma_capitals("TIMESTAMPTZ"@);
        },
        LogicalType::Interval => {
            reveal_strlit("INTERVAL");
            lemma_capitals("INTERVAL"@);
        },
        LogicalType::Uuid => {
            reveal_strlit("UUID");
            lemma_capitals("UUID"@);
        },
        LogicalType::Hugeint => {
            reveal_strlit("HUGEINT");
            lemma_capitals("HUGEINT"@);
        },
        LogicalType::UHugeint => {
            reveal_strlit("UHUGEINT");
            lemma_capitals("UHUGEINT"@);
        },
        LogicalType::Decimal { width, scale } => {
            let w = decimal_of(width as int);
            let s = decimal_of(scale as int);
            law_digits_write_the_number(width as nat);
            law_digits_write_the_number(scale as nat);
            assert(all_digits(w) && all_digits(s));
            reveal_strlit("DECIMAL");
            reveal_strlit("DECIMAL(");
            reveal_strlit("(");
            reveal_strlit(",");
            reveal_strlit(" ");
            reveal_strlit(", ");
            lemma_capitals("DECIMAL"@);
            law_decimal_width_and_scale("DECIMAL"@, w, " "@, s);
            assert(type_expr(ty) =~= "DECIMAL"@ + "("@ + w + ","@ + " "@ + s + ")"@);
        },
        _ => {},
    }
}

proof fn lemma_capitals(s: Seq<char>)
    requires
        s.len() > 0,
        forall|i: int| 0 <= i < s.len() ==> 'A' <= #[trigger] s[i] <= 'Z',
    ensures
        upper(s) == s,
        trim_of(s) == s,
{
    assert(upper(s) =~= s);
    assert('A' <= s[0] <= 'Z');
    assert('A' <= s[s.len() - 1] <= 'Z');
    law_trim_leaves_the_rest(s);
}

/// A declared type reaches the core under its own kind, and a nested one as the text of its
/// shape.
pub proof fn law_declared_type_reaches_the_core(ty: LogicalType)
    ensures
        match (ty, core_type(ty)) {
            (LogicalType::Boolean, TypeModel::Boolean) => true,
            (LogicalType::Int64, TypeModel::Int64) => true,
            (LogicalType::Uint64, TypeModel::Uint64) => true,
            (LogicalType::Float64, TypeModel::Float64) => true,
            (LogicalType::Text, TypeModel::Text) => true,
            (LogicalType::Blob, TypeModel::Blob) => true,
            (LogicalType::Int32, TypeModel::Int32) => true,
            (LogicalType::Timestamp, TypeModel::Timestamp) => true,
            (LogicalType::Int8, TypeModel::Int8) => true,
            (LogicalType::Int16, TypeModel::Int16) => true,
            (LogicalType::Uint8, TypeModel::Uint8) => true,
            (LogicalType::Uint16, TypeModel::Uint16) => true,
            (LogicalType::Uint32, TypeModel::Uint32) => true,
            (LogicalType::Float32, TypeModel::Float32) => true,
            (LogicalType::Date, TypeModel::Date) => true,
            (LogicalType::Time, TypeModel::Time) => true,
            (LogicalType::Timestamptz, TypeModel::Timestamptz) => true,
            (LogicalType::Interval, TypeModel::Interval) => true,
            (LogicalType::Uuid, TypeModel::Uuid) => true,
            (LogicalType::Hugeint, TypeModel::Hugeint) => true,
            (LogicalType::UHugeint, TypeModel::Uhugeint) => true,
            (LogicalType::Decimal { width, scale }, TypeModel::Decimal(d)) => d.width == width
                && d.scale == scale,
            (LogicalType::List(elem), TypeModel::Complex(text)) => text == "LIST("@ + type_expr(*elem)
                + ")"@,
            (LogicalType::MapOf(k, v), TypeModel::Complex(text)) => text == "MAP("@ + type_expr(*k)
                + ", "@ + type_expr(*v) + ")"@,
            (LogicalType::Array(size, elem), TypeModel::Complex(text)) => text == type_expr(*elem)
                + "["@ + decimal_of(size as int) + "]"@,
            (LogicalType::Struct(fields), TypeModel::Complex(text)) => text == "STRUCT("@ + join_of(
                field_texts(fields@),
                ", "@,
            ) + ")"@,
            (LogicalType::Complex(expr), TypeModel::Complex(text)) => text == expr@,
            _ => false,
        },
        ty matches LogicalType::List(elem) ==> type_expr(ty) == type_expr(*elem) + "[]"@,
{
    if let LogicalType::Struct(fields) = ty {
        lemma_fields_join(fields, fields@.len());
        assert(fields@.take(fields@.len() as int) =~= fields@);
    }
}

/// The fields of a structure, each with its name, a space and its type.
pub open spec fn field_texts(fields: Seq<(String, LogicalType)>) -> Seq<Seq<char>> {
    fields.map_values(|f: (String, LogicalType)| f.0@ + " "@ + type_expr(f.1))
}

proof fn lemma_fields_join(fields: Vec<(String, LogicalType)>, n: nat)
    requires
        n <= fields@.len(),
    ensures
        fields_expr(fields, n) == join_of(field_texts(fields@.take(n as int)), ", "@),
    decreases n,
{
    let texts = field_texts(fields@.take(n as int));
    if n > 0 {
        lemma_fields_join(fields, (n - 1) as nat);
        let field = fields@[n - 1];
        assert(texts.drop_last() =~= field_texts(fields@.take(n - 1)));
        assert(texts.last() == field.0@ + " "@ + type_expr(field.1));
        let before = fields_expr(fields, (n - 1) as nat);
        if n == 1 {
            assert(before =~= Seq::<char>::empty());
            assert(before + field.0@ + " "@ + type_expr(field.1) =~= texts[0]);
        } else {
            assert(before + ", "@ + field.0@ + " "@ + type_expr(field.1) =~= before + ", "@
                + texts.last());
        }
    } else {
        assert(texts.len() == 0);
    }
}

/// Batches are gathered one behind the other, kind by kind, and nothing is lost.
pub proof fn law_batches_are_gathered_in_order(
    first: PendingModel,
    batches: Seq<PendingRegistrationsData>,
    next: PendingRegistrationsData,
)
    ensures
        ({
            let before = gathered(first, batches);
            let all = gathered(first, batches.push(next));
            &&& all.scalars == before.scalars + next.scalars@
            &&& all.tables == before.tables + next.tables@
            &&& all.aggregates == before.aggregates + next.aggregates@
            &&& all.macros == before.macros + next.macros@
            &&& all.replacement_scans == before.replacement_scans + next.replacement_scans@
            &&& all.logical_types == before.logical_types + next.logical_types@
            &&& all.casts == before.casts + next.casts@
            &&& all.storages == before.storages + next.storages@
            &&& all.secrets == before.secrets + next.secrets@
            &&& all.settings == before.settings + next.settings@
        }),
        gathered(first, Seq::empty()) == first,
        PendingModel::empty().scalars.len() + PendingModel::empty().tables.len()
            + PendingModel::empty().aggregates.len() + PendingModel::empty().macros.len()
            + PendingModel::empty().replacement_scans.len() + PendingModel::empty().logical_types.len()
            + PendingModel::empty().casts.len() + PendingModel::empty().storages.len()
            + PendingModel::empty().secrets.len() + PendingModel::empty().settings.len() == 0,
{
    assert(batches.push(next).drop_last() =~= batches);
}

} // verus!
