//! What a core is given when it asks for the registrations, and the record that is kept
//! of it for a second core.
use crate::loader::{
    aggregate_model, arg_model, args_model, batch_model, cast_model, column_model, columns_model,
    convert_pending_registrations, ext_opts_model, func_opts_model, logical_type_model,
    macro_model, replacement_scan_model, scalar_model, table_model, BatchModel,
    PendingRegistrations,
};
use crate::load::drains_to;
use crate::manager::ExtensionManager;
use crate::model::views;
use crate::reg::{
    copy_setting, core_type, fields_expr, type_expr, AggregateReg, CastReg, ColumnDef, ExtOpts,
    FuncArg, FuncOpts, LogicalType, LogicalTypeReg, MacroReg, PendingModel,
    PendingRegistrationsData, ReplacementScanReg, ScalarReg, SecretReg, SettingReg, StorageReg,
    TableReg,
};
use vstd::prelude::*;

verus! {

// ---------------------------------------------------------------------------
// Copies
// ---------------------------------------------------------------------------

proof fn lemma_same_fields(a: Vec<(String, LogicalType)>, b: Vec<(String, LogicalType)>, n: nat)
    requires
        a@.len() == b@.len(),
        forall|i: int|
            0 <= i < a@.len() ==> (#[trigger] a@[i]).0@ == b@[i].0@ && type_expr(a@[i].1)
                == type_expr(b@[i].1),
    ensures
        fields_expr(a, n) == fields_expr(b, n),
    decreases n,
{
    if n > 0 && n <= a@.len() {
        lemma_same_fields(a, b, (n - 1) as nat);
        assert(a@[n - 1].0@ == b@[n - 1].0@);
    }
}

/// Copies a declared type.
pub fn copy_logical_type(ty: &LogicalType) -> (r: LogicalType)
    ensures
        type_expr(r) == type_expr(*ty),
        core_type(r) == core_type(*ty),
    decreases *ty, 0nat,
{
    match ty {
        LogicalType::Boolean => LogicalType::Boolean,
        LogicalType::Int64 => LogicalType::Int64,
        LogicalType::Uint64 => LogicalType::Uint64,
        LogicalType::Float64 => LogicalType::Float64,
        LogicalType::Text => LogicalType::Text,
        LogicalType::Blob => LogicalType::Blob,
        LogicalType::Int32 => LogicalType::Int32,
        LogicalType::Timestamp => LogicalType::Timestamp,
        LogicalType::Int8 => LogicalType::Int8,
        LogicalType::Int16 => LogicalType::Int16,
        LogicalType::Uint8 => LogicalType::Uint8,
        LogicalType::Uint16 => LogicalType::Uint16,
        LogicalType::Uint32 => LogicalType::Uint32,
        LogicalType::Float32 => LogicalType::Float32,
        LogicalType::Date => LogicalType::Date,
        LogicalType::Time => LogicalType::Time,
        LogicalType::Timestamptz => LogicalType::Timestamptz,
        LogicalType::Interval => LogicalType::Interval,
        LogicalType::Uuid => LogicalType::Uuid,
        LogicalType::Hugeint => LogicalType::Hugeint,
        LogicalType::UHugeint => LogicalType::UHugeint,
        LogicalType::Decimal { width, scale } => LogicalType::Decimal {
            width: *width,
            scale: *scale,
        },
        LogicalType::List(elem) => LogicalType::List(Box::new(copy_logical_type(elem))),
        LogicalType::Struct(fields) => LogicalType::Struct(copy_fields(fields)),
        LogicalType::MapOf(k, v) => LogicalType::MapOf(
            Box::new(copy_logical_type(k)),
            Box::new(copy_logical_type(v)),
        ),
        LogicalType::Array(size, elem) => LogicalType::Array(
            *size,
            Box::new(copy_logical_type(elem)),
        ),
        LogicalType::Complex(expr) => LogicalType::Complex(expr.clone()),
    }
}

impl Clone for LogicalType {
    fn clone(&self) -> (r: LogicalType)
        ensures
            type_expr(r) == type_expr(*self),
            core_type(r) == core_type(*self),
    {
        copy_logical_type(self)
    }
}

fn copy_fields(fields: &Vec<(String, LogicalType)>) -> (r: Vec<(String, LogicalType)>)
    ensures
        r@.len() == fields@.len(),
        fields_expr(r, r@.len()) == fields_expr(*fields, fields@.len()),
    decreases *fields, fields@.len() + 1,
{
    let mut out: Vec<(String, LogicalType)> = Vec::new();
    let mut i: usize = 0;
    while i < fields.len()
        invariant
            i <= fields@.len(),
            out@.len() == i,
            forall|j: int|
                0 <= j < i ==> (#[trigger] out@[j]).0@ == fields@[j].0@ && type_expr(out@[j].1)
                    == type_expr(fields@[j].1),
        decreases fields@.len() - i,
    {
        out.push((fields[i].0.clone(), copy_logical_type(&fields[i].1)));
        i += 1;
    }
    proof {
        lemma_same_fields(out, *fields, fields@.len());
    }
    out
}

fn copy_opt(s: &Option<String>) -> (r: Option<String>)
    ensures
        r == *s,
{
    match s {
        Some(t) => Some(t.clone()),
        None => None,
    }
}

fn copy_texts(v: &Vec<String>) -> (r: Vec<String>)
    ensures
        views(r@) == views(v@),
{
    let mut out: Vec<String> = Vec::new();
    let mut i: usize = 0;
    while i < v.len()
        invariant
            i <= v@.len(),
            out@.len() == i,
            forall|j: int| 0 <= j < i ==> #[trigger] out@[j] == v@[j],
        decreases v@.len() - i,
    {
        out.push(v[i].clone());
        i += 1;
    }
    assert(views(out@) =~= views(v@));
    out
}

fn copy_args(args: &Vec<FuncArg>) -> (r: Vec<FuncArg>)
    ensures
        args_model(r@) == args_model(args@),
{
    let mut out: Vec<FuncArg> = Vec::new();
    let mut i: usize = 0;
    while i < args.len()
        invariant
            i <= args@.len(),
            out@.len() == i,
            forall|j: int| 0 <= j < i ==> arg_model(#[trigger] out@[j]) == arg_model(args@[j]),
        decreases args@.len() - i,
    {
        out.push(
            FuncArg {
                name: copy_opt(&args[i].name),
                logical: copy_logical_type(&args[i].logical),
            },
        );
        i += 1;
    }
    assert(args_model(out@) =~= args_model(args@));
    out
}

fn copy_columns(cols: &Vec<ColumnDef>) -> (r: Vec<ColumnDef>)
    ensures
        columns_model(r@) == columns_model(cols@),
{
    let mut out: Vec<ColumnDef> = Vec::new();
    let mut i: usize = 0;
    while i < cols.len()
        invariant
            i <= cols@.len(),
            out@.len() == i,
            forall|j: int| 0 <= j < i ==> column_model(#[trigger] out@[j]) == column_model(cols@[j]),
        decreases cols@.len() - i,
    {
        out.push(
            ColumnDef { name: cols[i].name.clone(), logical: copy_logical_type(&cols[i].logical) },
        );
        i += 1;
    }
    assert(columns_model(out@) =~= columns_model(cols@));
    out
}

fn copy_func_opts(o: &Option<FuncOpts>) -> (r: Option<FuncOpts>)
    ensures
        func_opts_model(r) == func_opts_model(*o),
{
    match o {
        Some(opts) => Some(
            FuncOpts {
                description: copy_opt(&opts.description),
                tags: copy_texts(&opts.tags),
                attributes: opts.attributes,
            },
        ),
        None => None,
    }
}

fn copy_ext_opts(o: &Option<ExtOpts>) -> (r: Option<ExtOpts>)
    ensures
        ext_opts_model(r) == ext_opts_model(*o),
{
    match o {
        Some(opts) => Some(
            ExtOpts { description: copy_opt(&opts.description), tags: copy_texts(&opts.tags) },
        ),
        None => None,
    }
}

fn copy_scalars(entries: &Vec<ScalarReg>) -> (r: Vec<ScalarReg>)
    ensures
        r@.map_values(|e: ScalarReg| scalar_model(e)) == entries@.map_values(|e: ScalarReg| scalar_model(e)),
{
    let mut out: Vec<ScalarReg> = Vec::new();
    let mut i: usize = 0;
    while i < entries.len()
        invariant
            i <= entries@.len(),
            out@.len() == i,
            forall|j: int| 0 <= j < i ==> scalar_model(#[trigger] out@[j]) == scalar_model(entries@[j]),
        decreases entries@.len() - i,
    {
        let e = &entries[i];
        out.push(
            ScalarReg {
                extension: e.extension.clone(),
                name: e.name.clone(),
                arguments: copy_args(&e.arguments),
                returns: copy_logical_type(&e.returns),
                callback_handle: e.callback_handle,
                options: copy_func_opts(&e.options),
            },
        );
        i += 1;
    }
    assert(out@.map_values(|e: ScalarReg| scalar_model(e)) =~= entries@.map_values(
        |e: ScalarReg| scalar_model(e),
    ));
    out
}

fn copy_tables(entries: &Vec<TableReg>) -> (r: Vec<TableReg>)
    ensures
        r@.map_values(|e: TableReg| table_model(e)) == entries@.map_values(|e: TableReg| table_model(e)),
{
    let mut out: Vec<TableReg> = Vec::new();
    let mut i: usize = 0;
    while i < entries.len()
        invariant
            i <= entries@.len(),
            out@.len() == i,
            forall|j: int| 0 <= j < i ==> table_model(#[trigger] out@[j]) == table_model(entries@[j]),
        decreases entries@.len() - i,
    {
        let e = &entries[i];
        out.push(
            TableReg {
                extension: e.extension.clone(),
                name: e.name.clone(),
                arguments: copy_args(&e.arguments),
                columns: copy_columns(&e.columns),
                callback_handle: e.callback_handle,
                options: copy_ext_opts(&e.options),
            },
        );
        i += 1;
    }
    assert(out@.map_values(|e: TableReg| table_model(e)) =~= entries@.map_values(
        |e: TableReg| table_model(e),
    ));
    out
}

fn copy_aggregates(entries: &Vec<AggregateReg>) -> (r: Vec<AggregateReg>)
    ensures
        r@.map_values(|e: AggregateReg| aggregate_model(e)) == entries@.map_values(|e: AggregateReg| aggregate_model(e)),
{
    let mut out: Vec<AggregateReg> = Vec::new();
    let mut i: usize = 0;
    while i < entries.len()
        invariant
            i <= entries@.len(),
            out@.len() == i,
            forall|j: int| 0 <= j < i ==> aggregate_model(#[trigger] out@[j]) == aggregate_model(entries@[j]),
        decreases entries@.len() - i,
    {
        let e = &entries[i];
        out.push(
            AggregateReg {
                extension: e.extension.clone(),
                name: e.name.clone(),
                arguments: copy_args(&e.arguments),
                returns: copy_logical_type(&e.returns),
                callback_handle: e.callback_handle,
                options: copy_func_opts(&e.options),
            },
        );
        i += 1;
    }
    assert(out@.map_values(|e: AggregateReg| aggregate_model(e)) =~= entries@.map_values(
        |e: AggregateReg| aggregate_model(e),
    ));
    out
}

fn copy_macros(entries: &Vec<MacroReg>) -> (r: Vec<MacroReg>)
    ensures
        r@.map_values(|e: MacroReg| macro_model(e)) == entries@.map_values(|e: MacroReg| macro_model(e)),
{
    let mut out: Vec<MacroReg> = Vec::new();
    let mut i: usize = 0;
    while i < entries.len()
        invariant
            i <= entries@.len(),
            out@.len() == i,
            forall|j: int| 0 <= j < i ==> macro_model(#[trigger] out@[j]) == macro_model(entries@[j]),
        decreases entries@.len() - i,
    {
        let e = &entries[i];
        out.push(
            MacroReg {
                extension: e.extension.clone(),
                schema: copy_opt(&e.schema),
                name: e.name.clone(),
                parameters: copy_texts(&e.parameters),
                definition_sql: e.definition_sql.clone(),
            },
        );
        i += 1;
    }
    assert(out@.map_values(|e: MacroReg| macro_model(e)) =~= entries@.map_values(
        |e: MacroReg| macro_model(e),
    ));
    out
}

fn copy_replacement_scans(entries: &Vec<ReplacementScanReg>) -> (r: Vec<ReplacementScanReg>)
    ensures
        r@.map_values(|e: ReplacementScanReg| replacement_scan_model(e)) == entries@.map_values(|e: ReplacementScanReg| replacement_scan_model(e)),
{
    let mut out: Vec<ReplacementScanReg> = Vec::new();
    let mut i: usize = 0;
    while i < entries.len()
        invariant
            i <= entries@.len(),
            out@.len() == i,
            forall|j: int| 0 <= j < i ==> replacement_scan_model(#[trigger] out@[j]) == replacement_scan_model(entries@[j]),
        decreases entries@.len() - i,
    {
        let e = &entries[i];
        out.push(
            ReplacementScanReg {
                extension: e.extension.clone(),
                extensions: copy_texts(&e.extensions),
                function_name: e.function_name.clone(),
            },
        );
        i += 1;
    }
    assert(out@.map_values(|e: ReplacementScanReg| replacement_scan_model(e)) =~= entries@.map_values(
        |e: ReplacementScanReg| replacement_scan_model(e),
    ));
    out
}

fn copy_logical_types(entries: &Vec<LogicalTypeReg>) -> (r: Vec<LogicalTypeReg>)
    ensures
        r@.map_values(|e: LogicalTypeReg| logical_type_model(e)) == entries@.map_values(|e: LogicalTypeReg| logical_type_model(e)),
{
    let mut out: Vec<LogicalTypeReg> = Vec::new();
    let mut i: usize = 0;
    while i < entries.len()
        invariant
            i <= entries@.len(),
            out@.len() == i,
            forall|j: int| 0 <= j < i ==> logical_type_model(#[trigger] out@[j]) == logical_type_model(entries@[j]),
        decreases entries@.len() - i,
    {
        let e = &entries[i];
        out.push(
            LogicalTypeReg {
                extension: e.extension.clone(),
                name: e.name.clone(),
                physical: e.physical.clone(),
            },
        );
        i += 1;
    }
    assert(out@.map_values(|e: LogicalTypeReg| logical_type_model(e)) =~= entries@.map_values(
        |e: LogicalTypeReg| logical_type_model(e),
    ));
    out
}

fn copy_casts(entries: &Vec<CastReg>) -> (r: Vec<CastReg>)
    ensures
        r@.map_values(|e: CastReg| cast_model(e)) == entries@.map_values(|e: CastReg| cast_model(e)),
{
    let mut out: Vec<CastReg> = Vec::new();
    let mut i: usize = 0;
    while i < entries.len()
        invariant
            i <= entries@.len(),
            out@.len() == i,
            forall|j: int| 0 <= j < i ==> cast_model(#[trigger] out@[j]) == cast_model(entries@[j]),
        decreases entries@.len() - i,
    {
        let e = &entries[i];
        out.push(
            CastReg {
                extension: e.extension.clone(),
                source: e.source.clone(),
                target: e.target.clone(),
                callback_handle: e.callback_handle,
            },
        );
        i += 1;
    }
    assert(out@.map_values(|e: CastReg| cast_model(e)) =~= entries@.map_values(
        |e: CastReg| cast_model(e),
    ));
    out
}

fn copy_storages(entries: &Vec<StorageReg>) -> (r: Vec<StorageReg>)
    ensures
        r@ == entries@,
{
    let mut out: Vec<StorageReg> = Vec::new();
    let mut i: usize = 0;
    while i < entries.len()
        invariant
            i <= entries@.len(),
            out@.len() == i,
            forall|j: int| 0 <= j < i ==> #[trigger] out@[j] == entries@[j],
        decreases entries@.len() - i,
    {
        let e = &entries[i];
        out.push(StorageReg { extension: e.extension.clone(), ty_name: e.ty_name.clone(), callback_handle: e.callback_handle });
        i += 1;
    }
    assert(out@ =~= entries@);
    out
}

fn copy_secrets(entries: &Vec<SecretReg>) -> (r: Vec<SecretReg>)
    ensures
        r@ == entries@,
{
    let mut out: Vec<SecretReg> = Vec::new();
    let mut i: usize = 0;
    while i < entries.len()
        invariant
            i <= entries@.len(),
            out@.len() == i,
            forall|j: int| 0 <= j < i ==> #[trigger] out@[j] == entries@[j],
        decreases entries@.len() - i,
    {
        let e = &entries[i];
        out.push(SecretReg { extension: e.extension.clone(), ty_name: e.ty_name.clone(), provider: copy_opt(&e.provider), callback_handle: e.callback_handle });
        i += 1;
    }
    assert(out@ =~= entries@);
    out
}

fn copy_settings(entries: &Vec<SettingReg>) -> (r: Vec<SettingReg>)
    ensures
        r@ == entries@,
{
    let mut out: Vec<SettingReg> = Vec::new();
    let mut i: usize = 0;
    while i < entries.len()
        invariant
            i <= entries@.len(),
            out@.len() == i,
            forall|j: int| 0 <= j < i ==> #[trigger] out@[j] == entries@[j],
        decreases entries@.len() - i,
    {
        let e = &entries[i];
        out.push(copy_setting(e));
        i += 1;
    }
    assert(out@ =~= entries@);
    out
}

/// Copies a batch: the core takes the copy as it takes the batch.
pub fn copy_pending(data: &PendingRegistrationsData) -> (r: PendingRegistrationsData)
    ensures
        batch_model(r@) == batch_model(data@),
        r@.storages == data@.storages,
        r@.secrets == data@.secrets,
        r@.settings == data@.settings,
{
    PendingRegistrationsData {
        scalars: copy_scalars(&data.scalars),
        tables: copy_tables(&data.tables),
        aggregates: copy_aggregates(&data.aggregates),
        macros: copy_macros(&data.macros),
        replacement_scans: copy_replacement_scans(&data.replacement_scans),
        logical_types: copy_logical_types(&data.logical_types),
        casts: copy_casts(&data.casts),
        storages: copy_storages(&data.storages),
        secrets: copy_secrets(&data.secrets),
        settings: copy_settings(&data.settings),
    }
}

// ---------------------------------------------------------------------------
// Registrations for a core
// ---------------------------------------------------------------------------

proof fn lemma_batch_of_sum(a: PendingModel, b: PendingModel)
    ensures
        batch_model(a.plus(b)) == batch_model(a).plus(batch_model(b)),
{
    let whole = batch_model(a.plus(b));
    let parts = batch_model(a).plus(batch_model(b));
    assert(whole.scalars =~= parts.scalars);
    assert(whole.tables =~= parts.tables);
    assert(whole.aggregates =~= parts.aggregates);
    assert(whole.macros =~= parts.macros);
    assert(whole.replacement_scans =~= parts.replacement_scans);
    assert(whole.logical_types =~= parts.logical_types);
    assert(whole.casts =~= parts.casts);
}

/// What the archive would give a second core.
pub open spec fn archived(archive: Option<PendingRegistrationsData>) -> BatchModel {
    match archive {
        Some(a) => batch_model(a@),
        None => batch_model(PendingModel::empty()),
    }
}

impl ExtensionManager {
    /// What the first core is given when it asks for the registrations: what has
    /// gathered since the last time. It is added to the archive, where there is one.
    pub fn get_pending_registrations(
        &mut self,
        batches: Vec<PendingRegistrationsData>,
        archive: &mut Option<PendingRegistrationsData>,
    ) -> (r: PendingRegistrations)
        ensures
            exists|given: PendingModel| #[trigger]
                drains_to(*old(self), batches@, *final(self), given) && r@ == batch_model(given),
            old(self).wf() ==> final(self).wf(),
            match *old(archive) {
                Some(a) => *final(archive) is Some && archived(*final(archive)) == archived(
                    *old(archive),
                ).plus(r@),
                None => *final(archive) is None,
            },
    {
        let drained = self.drain_pending_registrations(batches);
        if let Some(a) = archive {
            let copy = copy_pending(&drained);
            proof {
                lemma_batch_of_sum(a@, copy@);
            }
            a.append(copy);
        }
        assert(drains_to(*old(self), batches@, *self, drained@));
        convert_pending_registrations(drained)
    }
}

/// What a second core is given: everything in the archive, which stays as it is.
pub fn replay_pending_registrations(archive: &Option<PendingRegistrationsData>) -> (r: PendingRegistrations)
    ensures
        r@ == archived(*archive),
{
    match archive {
        Some(a) => convert_pending_registrations(copy_pending(a)),
        None => convert_pending_registrations(PendingRegistrationsData::new()),
    }
}

// ---------------------------------------------------------------------------
// Laws
// ---------------------------------------------------------------------------

/// The archive after a row of answers to the first core.
pub open spec fn archive_after(start: BatchModel, answers: Seq<BatchModel>) -> BatchModel
    decreases answers.len(),
{
    if answers.len() == 0 {
        start
    } else {
        archive_after(start, answers.drop_last()).plus(answers.last())
    }
}

/// A second core is given everything that the first one was given: each answer stands
/// in the archive, behind the answers before it.
pub proof fn law_second_core_misses_nothing(start: BatchModel, answers: Seq<BatchModel>, k: int)
    requires
        0 <= k < answers.len(),
    ensures
        ({
            let before = archive_after(start, answers.take(k));
            let whole = archive_after(start, answers);
            &&& before.plus(answers[k]).scalars.is_prefix_of(whole.scalars)
            &&& before.plus(answers[k]).tables.is_prefix_of(whole.tables)
            &&& before.plus(answers[k]).aggregates.is_prefix_of(whole.aggregates)
            &&& before.plus(answers[k]).macros.is_prefix_of(whole.macros)
            &&& before.plus(answers[k]).replacement_scans.is_prefix_of(whole.replacement_scans)
            &&& before.plus(answers[k]).logical_types.is_prefix_of(whole.logical_types)
            &&& before.plus(answers[k]).casts.is_prefix_of(whole.casts)
        }),
    decreases answers.len(),
{
    let rest = answers.drop_last();
    if k == answers.len() - 1 {
        assert(answers.take(k) =~= rest);
    } else {
        assert(rest.take(k) =~= answers.take(k));
        assert(rest[k] == answers[k]);
        law_second_core_misses_nothing(start, rest, k);
    }
}

/// The archive holds what was answered, one answer behind the other.
pub proof fn law_archive_grows_by_answers(start: BatchModel, answers: Seq<BatchModel>, next: BatchModel)
    ensures
        ({
            let before = archive_after(start, answers);
            let after = archive_after(start, answers.push(next));
            &&& after.scalars == before.scalars + next.scalars
            &&& after.tables == before.tables + next.tables
            &&& after.aggregates == before.aggregates + next.aggregates
            &&& after.macros == before.macros + next.macros
            &&& after.replacement_scans == before.replacement_scans + next.replacement_scans
            &&& after.logical_types == before.logical_types + next.logical_types
            &&& after.casts == before.casts + next.casts
        }),
        archive_after(start, Seq::empty()) == start,
        archived(None).scalars.len() + archived(None).tables.len() + archived(None).aggregates.len()
            + archived(None).macros.len() + archived(None).replacement_scans.len() + archived(
            None,
        ).logical_types.len() + archived(None).casts.len() == 0,
        forall|a: PendingRegistrationsData| #[trigger] archived(Some(a)) == batch_model(a@),
{
    assert(answers.push(next).drop_last() =~= answers);
}

} // verus!
