//! The registration records as the core's loader takes them, and the conversion of
//! a pending batch into them.
use crate::core_types::{Columndef, Logicaltype};
use crate::model::{view_opt, views, ColumnModel, TypeModel};
use crate::reg;
use crate::reg::{core_type, neutral_logicaltype_to_core, PendingRegistrationsData};
use vstd::prelude::*;

verus! {

/// One property of a function.
#[derive(Clone, Copy, Debug, PartialEq, Eq, Structural)]
pub enum Funcflag {
    Deterministic,
    Commutative,
    Stateless,
    Sideeffecting,
    Deprecated,
}

/// A set of function properties.
#[derive(Clone, Copy, Debug, PartialEq, Eq, Structural)]
pub struct Funcflags {
    pub deterministic: bool,
    pub commutative: bool,
    pub stateless: bool,
    pub sideeffecting: bool,
    pub deprecated: bool,
}

impl Funcflags {
    pub open spec fn holds(self, flag: Funcflag) -> bool {
        match flag {
            Funcflag::Deterministic => self.deterministic,
            Funcflag::Commutative => self.commutative,
            Funcflag::Stateless => self.stateless,
            Funcflag::Sideeffecting => self.sideeffecting,
            Funcflag::Deprecated => self.deprecated,
        }
    }

    pub fn empty() -> (r: Funcflags)
        ensures
            r == (Funcflags {
                deterministic: false,
                commutative: false,
                stateless: false,
                sideeffecting: false,
                deprecated: false,
            }),
    {
        Funcflags {
            deterministic: false,
            commutative: false,
            stateless: false,
            sideeffecting: false,
            deprecated: false,
        }
    }

    pub fn contains(&self, flag: Funcflag) -> (r: bool)
        ensures
            r == self.holds(flag),
    {
        match flag {
            Funcflag::Deterministic => self.deterministic,
            Funcflag::Commutative => self.commutative,
            Funcflag::Stateless => self.stateless,
            Funcflag::Sideeffecting => self.sideeffecting,
            Funcflag::Deprecated => self.deprecated,
        }
    }
}

/// The declared properties, property by property.
pub open spec fn flags_of(flags: reg::FuncFlags) -> Funcflags {
    Funcflags {
        deterministic: flags.deterministic,
        commutative: flags.commutative,
        stateless: flags.stateless,
        sideeffecting: flags.side_effecting,
        deprecated: flags.deprecated,
    }
}

pub fn neutral_funcflags_to_core(flags: reg::FuncFlags) -> (r: Funcflags)
    ensures
        r == flags_of(flags),
{
    let mut result = Funcflags::empty();
    if flags.deterministic {
        result.deterministic = true;
    }
    if flags.commutative {
        result.commutative = true;
    }
    if flags.stateless {
        result.stateless = true;
    }
    if flags.side_effecting {
        result.sideeffecting = true;
    }
    if flags.deprecated {
        result.deprecated = true;
    }
    result
}

// ---------------------------------------------------------------------------
// Records
// ---------------------------------------------------------------------------

#[derive(Debug)]
pub struct FuncArg {
    pub name: Option<String>,
    pub logical: Logicaltype,
}

#[derive(Debug)]
pub struct FuncOpts {
    pub description: Option<String>,
    pub tags: Vec<String>,
    pub attributes: Funcflags,
}

#[derive(Debug)]
pub struct ExtOpts {
    pub description: Option<String>,
    pub tags: Vec<String>,
}

/// A scalar or aggregate function.
#[derive(Debug)]
pub struct FunctionRegistration {
    pub name: String,
    pub arguments: Vec<FuncArg>,
    pub returns: Logicaltype,
    pub callback_handle: u32,
    pub options: Option<FuncOpts>,
}

#[derive(Debug)]
pub struct TableRegistration {
    pub name: String,
    pub arguments: Vec<FuncArg>,
    pub columns: Vec<Columndef>,
    pub callback_handle: u32,
    pub options: Option<ExtOpts>,
}

#[derive(Debug)]
pub struct MacroRegistration {
    pub schema: Option<String>,
    pub name: String,
    pub parameters: Vec<String>,
    pub definition_sql: String,
}

#[derive(Debug)]
pub struct ReplacementScanRegistration {
    pub extensions: Vec<String>,
    pub function_name: String,
}

#[derive(Debug)]
pub struct LogicalTypeRegistration {
    pub name: String,
    pub physical: String,
}

#[derive(Debug)]
pub struct CastRegistration {
    pub source: String,
    pub target: String,
    pub callback_handle: u32,
}

/// A batch of registrations for the core.
#[derive(Debug)]
pub struct PendingRegistrations {
    pub scalars: Vec<FunctionRegistration>,
    pub tables: Vec<TableRegistration>,
    pub aggregates: Vec<FunctionRegistration>,
    pub macros: Vec<MacroRegistration>,
    pub replacement_scans: Vec<ReplacementScanRegistration>,
    pub logical_types: Vec<LogicalTypeRegistration>,
    pub casts: Vec<CastRegistration>,
}

// ---------------------------------------------------------------------------
// Models
// ---------------------------------------------------------------------------

#[verifier::ext_equal]
pub struct ArgModel {
    pub name: Option<Seq<char>>,
    pub logical: TypeModel,
}

#[verifier::ext_equal]
pub struct OptsModel {
    pub description: Option<Seq<char>>,
    pub tags: Seq<Seq<char>>,
    pub attributes: Option<Funcflags>,
}

#[verifier::ext_equal]
pub struct FunctionModel {
    pub name: Seq<char>,
    pub arguments: Seq<ArgModel>,
    pub returns: TypeModel,
    pub callback_handle: u32,
    pub options: Option<OptsModel>,
}

#[verifier::ext_equal]
pub struct TableModel {
    pub name: Seq<char>,
    pub arguments: Seq<ArgModel>,
    pub columns: Seq<ColumnModel>,
    pub callback_handle: u32,
    pub options: Option<OptsModel>,
}

#[verifier::ext_equal]
pub struct MacroModel {
    pub schema: Option<Seq<char>>,
    pub name: Seq<char>,
    pub parameters: Seq<Seq<char>>,
    pub definition_sql: Seq<char>,
}

#[verifier::ext_equal]
pub struct ReplacementScanModel {
    pub extensions: Seq<Seq<char>>,
    pub function_name: Seq<char>,
}

#[verifier::ext_equal]
pub struct LogicalTypeModel {
    pub name: Seq<char>,
    pub physical: Seq<char>,
}

#[verifier::ext_equal]
pub struct CastModel {
    pub source: Seq<char>,
    pub target: Seq<char>,
    pub callback_handle: u32,
}

#[verifier::ext_equal]
pub struct BatchModel {
    pub scalars: Seq<FunctionModel>,
    pub tables: Seq<TableModel>,
    pub aggregates: Seq<FunctionModel>,
    pub macros: Seq<MacroModel>,
    pub replacement_scans: Seq<ReplacementScanModel>,
    pub logical_types: Seq<LogicalTypeModel>,
    pub casts: Seq<CastModel>,
}

impl BatchModel {
    /// What this one holds followed by what the other one holds, list by list.
    pub open spec fn plus(self, other: BatchModel) -> BatchModel {
        BatchModel {
            scalars: self.scalars + other.scalars,
            tables: self.tables + other.tables,
            aggregates: self.aggregates + other.aggregates,
            macros: self.macros + other.macros,
            replacement_scans: self.replacement_scans + other.replacement_scans,
            logical_types: self.logical_types + other.logical_types,
            casts: self.casts + other.casts,
        }
    }
}

impl View for FuncArg {
    type V = ArgModel;

    open spec fn view(&self) -> ArgModel {
        ArgModel { name: view_opt(self.name), logical: self.logical@ }
    }
}

impl View for FuncOpts {
    type V = OptsModel;

    open spec fn view(&self) -> OptsModel {
        OptsModel {
            description: view_opt(self.description),
            tags: views(self.tags@),
            attributes: Some(self.attributes),
        }
    }
}

impl View for ExtOpts {
    type V = OptsModel;

    open spec fn view(&self) -> OptsModel {
        OptsModel {
            description: view_opt(self.description),
            tags: views(self.tags@),
            attributes: None,
        }
    }
}

impl View for FunctionRegistration {
    type V = FunctionModel;

    open spec fn view(&self) -> FunctionModel {
        FunctionModel {
            name: self.name@,
            arguments: views(self.arguments@),
            returns: self.returns@,
            callback_handle: self.callback_handle,
            options: view_opt(self.options),
        }
    }
}

impl View for TableRegistration {
    type V = TableModel;

    open spec fn view(&self) -> TableModel {
        TableModel {
            name: self.name@,
            arguments: views(self.arguments@),
            columns: views(self.columns@),
            callback_handle: self.callback_handle,
            options: view_opt(self.options),
        }
    }
}

impl View for MacroRegistration {
    type V = MacroModel;

    open spec fn view(&self) -> MacroModel {
        MacroModel {
            schema: view_opt(self.schema),
            name: self.name@,
            parameters: views(self.parameters@),
            definition_sql: self.definition_sql@,
        }
    }
}

impl View for ReplacementScanRegistration {
    type V = ReplacementScanModel;

    open spec fn view(&self) -> ReplacementScanModel {
        ReplacementScanModel {
            extensions: views(self.extensions@),
            function_name: self.function_name@,
        }
    }
}

impl View for LogicalTypeRegistration {
    type V = LogicalTypeModel;

    open spec fn view(&self) -> LogicalTypeModel {
        LogicalTypeModel { name: self.name@, physical: self.physical@ }
    }
}

impl View for CastRegistration {
    type V = CastModel;

    open spec fn view(&self) -> CastModel {
        CastModel {
            source: self.source@,
            target: self.target@,
            callback_handle: self.callback_handle,
        }
    }
}

impl View for PendingRegistrations {
    type V = BatchModel;

    open spec fn view(&self) -> BatchModel {
        BatchModel {
            scalars: views(self.scalars@),
            tables: views(self.tables@),
            aggregates: views(self.aggregates@),
            macros: views(self.macros@),
            replacement_scans: views(self.replacement_scans@),
            logical_types: views(self.logical_types@),
            casts: views(self.casts@),
        }
    }
}

// ---------------------------------------------------------------------------
// What each declaration becomes
// ---------------------------------------------------------------------------

pub open spec fn arg_model(a: reg::FuncArg) -> ArgModel {
    ArgModel { name: view_opt(a.name), logical: core_type(a.logical) }
}

pub open spec fn args_model(args: Seq<reg::FuncArg>) -> Seq<ArgModel> {
    args.map_values(|a: reg::FuncArg| arg_model(a))
}

pub open spec fn column_model(c: reg::ColumnDef) -> ColumnModel {
    ColumnModel { name: c.name@, logical: core_type(c.logical) }
}

pub open spec fn columns_model(cols: Seq<reg::ColumnDef>) -> Seq<ColumnModel> {
    cols.map_values(|c: reg::ColumnDef| column_model(c))
}

pub open spec fn func_opts_model(o: Option<reg::FuncOpts>) -> Option<OptsModel> {
    match o {
        Some(opts) => Some(
            OptsModel {
                description: view_opt(opts.description),
                tags: views(opts.tags@),
                attributes: Some(flags_of(opts.attributes)),
            },
        ),
        None => None,
    }
}

pub open spec fn ext_opts_model(o: Option<reg::ExtOpts>) -> Option<OptsModel> {
    match o {
        Some(opts) => Some(
            OptsModel {
                description: view_opt(opts.description),
                tags: views(opts.tags@),
                attributes: None,
            },
        ),
        None => None,
    }
}

pub open spec fn scalar_model(e: reg::ScalarReg) -> FunctionModel {
    FunctionModel {
        name: e.name@,
        arguments: args_model(e.arguments@),
        returns: core_type(e.returns),
        callback_handle: e.callback_handle,
        options: func_opts_model(e.options),
    }
}

pub open spec fn aggregate_model(e: reg::AggregateReg) -> FunctionModel {
    FunctionModel {
        name: e.name@,
        arguments: args_model(e.arguments@),
        returns: core_type(e.returns),
        callback_handle: e.callback_handle,
        options: func_opts_model(e.options),
    }
}

pub open spec fn table_model(e: reg::TableReg) -> TableModel {
    TableModel {
        name: e.name@,
        arguments: args_model(e.arguments@),
        columns: columns_model(e.columns@),
        callback_handle: e.callback_handle,
        options: ext_opts_model(e.options),
    }
}

pub open spec fn macro_model(e: reg::MacroReg) -> MacroModel {
    MacroModel {
        schema: view_opt(e.schema),
        name: e.name@,
        parameters: views(e.parameters@),
        definition_sql: e.definition_sql@,
    }
}

pub open spec fn replacement_scan_model(e: reg::ReplacementScanReg) -> ReplacementScanModel {
    ReplacementScanModel { extensions: views(e.extensions@), function_name: e.function_name@ }
}

pub open spec fn logical_type_model(e: reg::LogicalTypeReg) -> LogicalTypeModel {
    LogicalTypeModel { name: e.name@, physical: e.physical@ }
}

pub open spec fn cast_model(e: reg::CastReg) -> CastModel {
    CastModel { source: e.source@, target: e.target@, callback_handle: e.callback_handle }
}

/// A pending batch as the core takes it: every declaration in its place, in order.
/// Storage, secret and setting declarations stay with the host.
pub open spec fn batch_model(data: reg::PendingModel) -> BatchModel {
    BatchModel {
        scalars: data.scalars.map_values(|e: reg::ScalarReg| scalar_model(e)),
        tables: data.tables.map_values(|e: reg::TableReg| table_model(e)),
        aggregates: data.aggregates.map_values(|e: reg::AggregateReg| aggregate_model(e)),
        macros: data.macros.map_values(|e: reg::MacroReg| macro_model(e)),
        replacement_scans: data.replacement_scans.map_values(
            |e: reg::ReplacementScanReg| replacement_scan_model(e),
        ),
        logical_types: data.logical_types.map_values(
            |e: reg::LogicalTypeReg| logical_type_model(e),
        ),
        casts: data.casts.map_values(|e: reg::CastReg| cast_model(e)),
    }
}

// ---------------------------------------------------------------------------
// Conversions
// ---------------------------------------------------------------------------

pub fn convert_funcargs_to_loader(args: Vec<reg::FuncArg>) -> (r: Vec<FuncArg>)
    ensures
        views(r@) == args_model(args@),
{
    let mut out: Vec<FuncArg> = Vec::new();
    for a in it: args
        invariant
            it.seq() == args@,
            out@.len() == it.index(),
            forall|i: int| 0 <= i < out@.len() ==> (#[trigger] out@[i])@ == arg_model(args@[i]),
    {
        out.push(FuncArg { name: a.name, logical: neutral_logicaltype_to_core(a.logical) });
    }
    assert(views(out@) =~= args_model(args@));
    out
}

pub fn neutral_columndef_to_core(col: reg::ColumnDef) -> (r: Columndef)
    ensures
        r@ == column_model(col),
{
    Columndef { name: col.name, logical: neutral_logicaltype_to_core(col.logical) }
}

pub fn convert_columns_to_loader(cols: Vec<reg::ColumnDef>) -> (r: Vec<Columndef>)
    ensures
        views(r@) == columns_model(cols@),
{
    let mut out: Vec<Columndef> = Vec::new();
    for c in it: cols
        invariant
            it.seq() == cols@,
            out@.len() == it.index(),
            forall|i: int| 0 <= i < out@.len() ==> (#[trigger] out@[i])@ == column_model(cols@[i]),
    {
        out.push(neutral_columndef_to_core(c));
    }
    assert(views(out@) =~= columns_model(cols@));
    out
}

pub fn convert_funcopts_to_loader(opts: reg::FuncOpts) -> (r: FuncOpts)
    ensures
        Some(r@) == func_opts_model(Some(opts)),
{
    FuncOpts {
        description: opts.description,
        tags: opts.tags,
        attributes: neutral_funcflags_to_core(opts.attributes),
    }
}

pub fn convert_extopts_to_loader(opts: reg::ExtOpts) -> (r: ExtOpts)
    ensures
        Some(r@) == ext_opts_model(Some(opts)),
{
    ExtOpts { description: opts.description, tags: opts.tags }
}

pub fn convert_pending_scalar_registration(entry: reg::ScalarReg) -> (r: FunctionRegistration)
    ensures
        r@ == scalar_model(entry),
{
    FunctionRegistration {
        name: entry.name,
        arguments: convert_funcargs_to_loader(entry.arguments),
        returns: neutral_logicaltype_to_core(entry.returns),
        callback_handle: entry.callback_handle,
        options: match entry.options {
            Some(o) => Some(convert_funcopts_to_loader(o)),
            None => None,
        },
    }
}

pub fn convert_pending_aggregate_registration(entry: reg::AggregateReg) -> (r: FunctionRegistration)
    ensures
        r@ == aggregate_model(entry),
{
    FunctionRegistration {
        name: entry.name,
        arguments: convert_funcargs_to_loader(entry.arguments),
        returns: neutral_logicaltype_to_core(entry.returns),
        callback_handle: entry.callback_handle,
        options: match entry.options {
            Some(o) => Some(convert_funcopts_to_loader(o)),
            None => None,
        },
    }
}

pub fn convert_pending_table_registration(entry: reg::TableReg) -> (r: TableRegistration)
    ensures
        r@ == table_model(entry),
{
    TableRegistration {
        name: entry.name,
        arguments: convert_funcargs_to_loader(entry.arguments),
        columns: convert_columns_to_loader(entry.columns),
        callback_handle: entry.callback_handle,
        options: match entry.options {
            Some(o) => Some(convert_extopts_to_loader(o)),
            None => None,
        },
    }
}

pub fn convert_pending_macro_registration(entry: reg::MacroReg) -> (r: MacroRegistration)
    ensures
        r@ == macro_model(entry),
{
    MacroRegistration {
        schema: entry.schema,
        name: entry.name,
        parameters: entry.parameters,
        definition_sql: entry.definition_sql,
    }
}

pub fn convert_pending_replacement_scan_registration(entry: reg::ReplacementScanReg) -> (r:
    ReplacementScanRegistration)
    ensures
        r@ == replacement_scan_model(entry),
{
    ReplacementScanRegistration { extensions: entry.extensions, function_name: entry.function_name }
}

pub fn convert_pending_logical_type_registration(entry: reg::LogicalTypeReg) -> (r:
    LogicalTypeRegistration)
    ensures
        r@ == logical_type_model(entry),
{
    LogicalTypeRegistration { name: entry.name, physical: entry.physical }
}

pub fn convert_pending_cast_registration(entry: reg::CastReg) -> (r: CastRegistration)
    ensures
        r@ == cast_model(entry),
{
    CastRegistration {
        source: entry.source,
        target: entry.target,
        callback_handle: entry.callback_handle,
    }
}

fn convert_scalars(entries: Vec<reg::ScalarReg>) -> (r: Vec<FunctionRegistration>)
    ensures
        views(r@) == entries@.map_values(|e: reg::ScalarReg| scalar_model(e)),
{
    let mut out: Vec<FunctionRegistration> = Vec::new();
    for e in it: entries
        invariant
            it.seq() == entries@,
            out@.len() == it.index(),
            forall|i: int| 0 <= i < out@.len() ==> (#[trigger] out@[i])@ == scalar_model(entries@[i]),
    {
        out.push(convert_pending_scalar_registration(e));
    }
    assert(views(out@) =~= entries@.map_values(|e: reg::ScalarReg| scalar_model(e)));
    out
}

fn convert_tables(entries: Vec<reg::TableReg>) -> (r: Vec<TableRegistration>)
    ensures
        views(r@) == entries@.map_values(|e: reg::TableReg| table_model(e)),
{
    let mut out: Vec<TableRegistration> = Vec::new();
    for e in it: entries
        invariant
            it.seq() == entries@,
            out@.len() == it.index(),
            forall|i: int| 0 <= i < out@.len() ==> (#[trigger] out@[i])@ == table_model(entries@[i]),
    {
        out.push(convert_pending_table_registration(e));
    }
    assert(views(out@) =~= entries@.map_values(|e: reg::TableReg| table_model(e)));
    out
}

fn convert_aggregates(entries: Vec<reg::AggregateReg>) -> (r: Vec<FunctionRegistration>)
    ensures
        views(r@) == entries@.map_values(|e: reg::AggregateReg| aggregate_model(e)),
{
    let mut out: Vec<FunctionRegistration> = Vec::new();
    for e in it: entries
        invariant
            it.seq() == entries@,
            out@.len() == it.index(),
            forall|i: int| 0 <= i < out@.len() ==> (#[trigger] out@[i])@ == aggregate_model(entries@[i]),
    {
        out.push(convert_pending_aggregate_registration(e));
    }
    assert(views(out@) =~= entries@.map_values(|e: reg::AggregateReg| aggregate_model(e)));
    out
}

fn convert_macros(entries: Vec<reg::MacroReg>) -> (r: Vec<MacroRegistration>)
    ensures
        views(r@) == entries@.map_values(|e: reg::MacroReg| macro_model(e)),
{
    let mut out: Vec<MacroRegistration> = Vec::new();
    for e in it: entries
        invariant
            it.seq() == entries@,
            out@.len() == it.index(),
            forall|i: int| 0 <= i < out@.len() ==> (#[trigger] out@[i])@ == macro_model(entries@[i]),
    {
        out.push(convert_pending_macro_registration(e));
    }
    assert(views(out@) =~= entries@.map_values(|e: reg::MacroReg| macro_model(e)));
    out
}

fn convert_replacement_scans(entries: Vec<reg::ReplacementScanReg>) -> (r: Vec<ReplacementScanRegistration>)
    ensures
        views(r@) == entries@.map_values(|e: reg::ReplacementScanReg| replacement_scan_model(e)),
{
    let mut out: Vec<ReplacementScanRegistration> = Vec::new();
    for e in it: entries
        invariant
            it.seq() == entries@,
            out@.len() == it.index(),
            forall|i: int| 0 <= i < out@.len() ==> (#[trigger] out@[i])@ == replacement_scan_model(entries@[i]),
    {
        out.push(convert_pending_replacement_scan_registration(e));
    }
    assert(views(out@) =~= entries@.map_values(|e: reg::ReplacementScanReg| replacement_scan_model(e)));
    out
}

fn convert_logical_types(entries: Vec<reg::LogicalTypeReg>) -> (r: Vec<LogicalTypeRegistration>)
    ensures
        views(r@) == entries@.map_values(|e: reg::LogicalTypeReg| logical_type_model(e)),
{
    let mut out: Vec<LogicalTypeRegistration> = Vec::new();
    for e in it: entries
        invariant
            it.seq() == entries@,
            out@.len() == it.index(),
            forall|i: int| 0 <= i < out@.len() ==> (#[trigger] out@[i])@ == logical_type_model(entries@[i]),
    {
        out.push(convert_pending_logical_type_registration(e));
    }
    assert(views(out@) =~= entries@.map_values(|e: reg::LogicalTypeReg| logical_type_model(e)));
    out
}

fn convert_casts(entries: Vec<reg::CastReg>) -> (r: Vec<CastRegistration>)
    ensures
        views(r@) == entries@.map_values(|e: reg::CastReg| cast_model(e)),
{
    let mut out: Vec<CastRegistration> = Vec::new();
    for e in it: entries
        invariant
            it.seq() == entries@,
            out@.len() == it.index(),
            forall|i: int| 0 <= i < out@.len() ==> (#[trigger] out@[i])@ == cast_model(entries@[i]),
    {
        out.push(convert_pending_cast_registration(e));
    }
    assert(views(out@) =~= entries@.map_values(|e: reg::CastReg| cast_model(e)));
    out
}

/// Converts a pending batch for the core.
pub fn convert_pending_registrations(data: PendingRegistrationsData) -> (r: PendingRegistrations)
    ensures
        r@ == batch_model(data@),
{
    PendingRegistrations {
        scalars: convert_scalars(data.scalars),
        tables: convert_tables(data.tables),
        aggregates: convert_aggregates(data.aggregates),
        macros: convert_macros(data.macros),
        replacement_scans: convert_replacement_scans(data.replacement_scans),
        logical_types: convert_logical_types(data.logical_types),
        casts: convert_casts(data.casts),
    }
}

// ---------------------------------------------------------------------------
// Laws
// ---------------------------------------------------------------------------

/// Each flag of a declared function is the flag of the same name for the core.
pub proof fn law_flags_keep_their_names(flags: reg::FuncFlags)
    ensures
        flags_of(flags).holds(Funcflag::Deterministic) == flags.deterministic,
        flags_of(flags).holds(Funcflag::Commutative) == flags.commutative,
        flags_of(flags).holds(Funcflag::Stateless) == flags.stateless,
        flags_of(flags).holds(Funcflag::Sideeffecting) == flags.side_effecting,
        flags_of(flags).holds(Funcflag::Deprecated) == flags.deprecated,
{
}

/// A declared function reaches the core with its own name, parameters, result, callback and
/// description.
pub proof fn law_function_is_handed_over_whole(
    scalar: reg::ScalarReg,
    aggregate: reg::AggregateReg,
    i: int,
)
    ensures
        ({
            let f = scalar_model(scalar);
            &&& f.name == scalar.name@
            &&& f.returns == core_type(scalar.returns)
            &&& f.callback_handle == scalar.callback_handle
            &&& f.arguments.len() == scalar.arguments@.len()
            &&& 0 <= i < f.arguments.len() ==> f.arguments[i].name == view_opt(
                scalar.arguments@[i].name,
            ) && f.arguments[i].logical == core_type(scalar.arguments@[i].logical)
            &&& match (scalar.options, f.options) {
                (Some(o), Some(p)) => p.description == view_opt(o.description) && p.tags == views(
                    o.tags@,
                ) && p.attributes == Some(flags_of(o.attributes)),
                (None, None) => true,
                _ => false,
            }
        }),
        ({
            let f = aggregate_model(aggregate);
            &&& f.name == aggregate.name@
            &&& f.returns == core_type(aggregate.returns)
            &&& f.callback_handle == aggregate.callback_handle
            &&& f.arguments.len() == aggregate.arguments@.len()
            &&& 0 <= i < f.arguments.len() ==> f.arguments[i].name == view_opt(
                aggregate.arguments@[i].name,
            ) && f.arguments[i].logical == core_type(aggregate.arguments@[i].logical)
            &&& match (aggregate.options, f.options) {
                (Some(o), Some(p)) => p.description == view_opt(o.description) && p.tags == views(
                    o.tags@,
                ) && p.attributes == Some(flags_of(o.attributes)),
                (None, None) => true,
                _ => false,
            }
        }),
{
}

/// A declared table function reaches the core with its own name, parameters, columns,
/// callback and description.
pub proof fn law_table_is_handed_over_whole(table: reg::TableReg, i: int)
    ensures
        ({
            let f = table_model(table);
            &&& f.name == table.name@
            &&& f.callback_handle == table.callback_handle
            &&& f.arguments.len() == table.arguments@.len()
            &&& 0 <= i < f.arguments.len() ==> f.arguments[i].name == view_opt(
                table.arguments@[i].name,
            ) && f.arguments[i].logical == core_type(table.arguments@[i].logical)
            &&& f.columns.len() == table.columns@.len()
            &&& 0 <= i < f.columns.len() ==> f.columns[i].name == table.columns@[i].name@
                && f.columns[i].logical == core_type(table.columns@[i].logical)
            &&& match (table.options, f.options) {
                (Some(o), Some(p)) => p.description == view_opt(o.description) && p.tags == views(
                    o.tags@,
                ) && p.attributes is None,
                (None, None) => true,
                _ => false,
            }
        }),
{
}

/// Macros, replacement scans, named types and casts reach the core as they were declared.
pub proof fn law_other_declarations_are_handed_over_whole(
    m: reg::MacroReg,
    scan: reg::ReplacementScanReg,
    ty: reg::LogicalTypeReg,
    cast: reg::CastReg,
)
    ensures
        macro_model(m).schema == view_opt(m.schema),
        macro_model(m).name == m.name@,
        macro_model(m).parameters == views(m.parameters@),
        macro_model(m).definition_sql == m.definition_sql@,
        replacement_scan_model(scan).extensions == views(scan.extensions@),
        replacement_scan_model(scan).function_name == scan.function_name@,
        logical_type_model(ty).name == ty.name@,
        logical_type_model(ty).physical == ty.physical@,
        cast_model(cast).source == cast.source@,
        cast_model(cast).target == cast.target@,
        cast_model(cast).callback_handle == cast.callback_handle,
{
}

/// A batch reaches the core entry by entry, in order.
pub proof fn law_batch_is_by_entry(data: reg::PendingModel, i: int)
    requires
        i >= 0,
    ensures
        ({
            let b = batch_model(data);
            &&& b.scalars.len() == data.scalars.len()
            &&& b.tables.len() == data.tables.len()
            &&& b.aggregates.len() == data.aggregates.len()
            &&& b.macros.len() == data.macros.len()
            &&& b.replacement_scans.len() == data.replacement_scans.len()
            &&& b.logical_types.len() == data.logical_types.len()
            &&& b.casts.len() == data.casts.len()
            &&& i < b.scalars.len() ==> b.scalars[i] == scalar_model(data.scalars[i])
            &&& i < b.tables.len() ==> b.tables[i] == table_model(data.tables[i])
            &&& i < b.aggregates.len() ==> b.aggregates[i] == aggregate_model(data.aggregates[i])
            &&& i < b.macros.len() ==> b.macros[i] == macro_model(data.macros[i])
            &&& i < b.replacement_scans.len() ==> b.replacement_scans[i] == replacement_scan_model(
                data.replacement_scans[i],
            )
            &&& i < b.logical_types.len() ==> b.logical_types[i] == logical_type_model(
                data.logical_types[i],
            )
            &&& i < b.casts.len() ==> b.casts[i] == cast_model(data.casts[i])
        }),
{
}

/// The view of what goes to the core shows each part as it is.
pub proof fn law_views_show_the_parts(
    f: FunctionRegistration,
    t: TableRegistration,
    m: MacroRegistration,
    s: ReplacementScanRegistration,
    l: LogicalTypeRegistration,
    c: CastRegistration,
    i: int,
)
    requires
        i >= 0,
    ensures
        f@.name == f.name@ && f@.returns == f.returns@ && f@.callback_handle == f.callback_handle,
        f@.arguments.len() == f.arguments@.len(),
        i < f.arguments@.len() ==> f@.arguments[i].logical == f.arguments@[i].logical@
            && f@.arguments[i].name == view_opt(f.arguments@[i].name),
        f@.options == (match f.options {
            Some(o) => Some(
                OptsModel {
                    description: view_opt(o.description),
                    tags: views(o.tags@),
                    attributes: Some(o.attributes),
                },
            ),
            None => None,
        }),
        t@.name == t.name@ && t@.callback_handle == t.callback_handle,
        t@.arguments == views(t.arguments@) && t@.columns == views(t.columns@),
        t@.options == (match t.options {
            Some(o) => Some(
                OptsModel {
                    description: view_opt(o.description),
                    tags: views(o.tags@),
                    attributes: None,
                },
            ),
            None => None,
        }),
        m@.name == m.name@ && m@.definition_sql == m.definition_sql@ && m@.schema == view_opt(m.schema)
            && m@.parameters == views(m.parameters@),
        s@.function_name == s.function_name@ && s@.extensions == views(s.extensions@),
        l@.name == l.name@ && l@.physical == l.physical@,
        c@.source == c.source@ && c@.target == c.target@ && c@.callback_handle == c.callback_handle,
{
}

} // verus!
