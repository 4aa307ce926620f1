//! `ATTACH '<dsn>' AS <alias> (TYPE <type>)` for a type that an extension backs: the
//! foreign catalog is opened through the extension, and each of its tables becomes a
//! view over a table function that the host answers.
use crate::cli_types;
use crate::convert::{convert_core_duckerror, convert_extension_logicaltype_to_core};
use crate::core_types;
use crate::extension_types;
use crate::manager::ExtensionManager;
use crate::model::{message_of, view_opt, views, ColumnModel, ErrorModel, ResultModel};
use crate::names::NameMap;
use crate::prefix::{is_ident, sanitize_prefix};
use crate::scan::{
    free_from, is_scan_handle, law_allotted_handle_is_free, scan_handles, At5ScanTarget,
    ScanRegistry,
};
use crate::settings::cut_at_equals;
use crate::text::{
    chars_of, contains, has_infix, has_prefix, is_white, is_word, law_infix,
    law_trim_leaves_the_rest, occurs_at, position_from, starts_with, text_of, trim, trim_of,
};
use crate::spelling::{
    is_blank, lacks, lemma_index_is, lemma_trim_end_is, lemma_trim_start, lemma_trim_start_is,
};
use vstd::prelude::*;

verus! {

/// A parsed `ATTACH` statement.
#[derive(Debug)]
pub struct AttachSpec {
    pub alias: String,
    pub ty_name: String,
    pub dsn: String,
    pub if_not_exists: bool,
    pub read_only: bool,
}

/// What is remembered of an attached catalog.
#[derive(Clone, Debug)]
pub struct AttachedForeignCatalog {
    pub extension: String,
    pub catalog_handle: u32,
    pub callback_handle: u32,
    pub ty_name: String,
    pub tables: Vec<String>,
    /// The scan handle of each table.
    pub table_callbacks: Vec<(String, u32)>,
    /// The local file that the DSN names, if it names one.
    pub dsn_path: Option<String>,
    pub read_only: bool,
    /// The extension makes writes durable by itself.
    pub writes_persist_directly: bool,
}

// ---------------------------------------------------------------------------
// Names, paths and texts
// ---------------------------------------------------------------------------

/// The name of the table function behind a table: `__<alias>_<table>`.
pub open spec fn synth_fn_name(alias: Seq<char>, table: Seq<char>) -> Seq<char> {
    "__"@ + alias + "_"@ + table
}

pub fn at5_synth_fn_name(alias: &str, table: &str) -> (r: String)
    ensures
        r@ == synth_fn_name(alias@, table@),
{
    let mut out = "__".to_owned();
    out.append(alias);
    out.append("_");
    out.append(table);
    out
}

/// A connection string: `<key>=<value>` pairs. It begins with a key, which is an
/// identifier, before the first `=`; a path with an `=` further down begins with none.
pub open spec fn is_connection_string(s: Seq<char>) -> bool {
    match cut_at_equals(s) {
        Some((key, _)) => is_ident(trim_of(key)),
        None => false,
    }
}

fn names_connection(s: &str) -> (r: bool)
    ensures
        r == is_connection_string(s@),
{
    let cs = chars_of(s);
    let k: usize = position_from(&cs, '=', 0);
    if k >= cs.len() {
        return false;
    }
    let key = text_of(&cs, 0, k);
    assert(key@ =~= s@.take(k as int));
    sanitize_prefix(trim(key.as_str())).is_some()
}

/// The local path that a DSN names: a bare path, or what follows `file://`. A DSN with
/// another scheme, a connection string, or an empty DSN names none.
pub open spec fn dsn_path(dsn: Seq<char>) -> Option<Seq<char>> {
    let raw = trim_of(dsn);
    if raw.len() == 0 {
        None
    } else if has_prefix(raw, "file://"@) {
        Some(raw.skip("file://"@.len() as int))
    } else if has_infix(raw, "://"@) || is_connection_string(raw) {
        None
    } else {
        Some(raw)
    }
}

pub fn resolve_attach_dsn_path(dsn: &str) -> (r: Option<String>)
    ensures
        crate::model::view_opt(r) == dsn_path(dsn@),
{
    let raw = trim(dsn);
    if raw.is_empty() {
        return None;
    }
    if starts_with(raw, "file://") {
        proof {
            reveal_strlit("file://");
        }
        let n: usize = raw.unicode_len();
        let rest = raw.substring_char(7, n);
        assert(rest@ =~= raw@.skip(7));
        Some(rest.to_owned())
    } else if contains(raw, "://") || names_connection(raw) {
        None
    } else {
        Some(raw.to_owned())
    }
}

/// The result of a statement that returns nothing.
pub open spec fn no_rows() -> ResultModel {
    ResultModel { columns: Seq::empty(), rows: Seq::empty() }
}

pub fn empty_query_result() -> (r: cli_types::QueryResult)
    ensures
        r@ == no_rows(),
{
    let r = cli_types::QueryResult { columns: Vec::new(), rows: Vec::new() };
    assert(r@ =~= no_rows());
    r
}

/// The message of an extension's error.
pub fn extension_duckerror_message(err: &extension_types::Duckerror) -> (r: &str)
    ensures
        r@ == message_of(err@),
{
    match err {
        extension_types::Duckerror::Invalidargument(m) => m.as_str(),
        extension_types::Duckerror::Unsupported(m) => m.as_str(),
        extension_types::Duckerror::Invalidstate(m) => m.as_str(),
        extension_types::Duckerror::Io(m) => m.as_str(),
        extension_types::Duckerror::Internal(m) => m.as_str(),
    }
}

/// An extension's error as the command line sees it.
pub fn cli_extension_duckerror(err: extension_types::Duckerror) -> (r: cli_types::Duckerror)
    ensures
        r@ == err@,
{
    match err {
        extension_types::Duckerror::Invalidargument(m) => cli_types::Duckerror::Invalidargument(m),
        extension_types::Duckerror::Unsupported(m) => cli_types::Duckerror::Unsupported(m),
        extension_types::Duckerror::Invalidstate(m) => cli_types::Duckerror::Invalidstate(m),
        extension_types::Duckerror::Io(m) => cli_types::Duckerror::Io(m),
        extension_types::Duckerror::Internal(m) => cli_types::Duckerror::Internal(m),
    }
}

pub open spec fn attach_memory_sql(alias: Seq<char>) -> Seq<char> {
    "ATTACH ':memory:' AS "@ + alias
}

pub open spec fn view_sql(alias: Seq<char>, table: Seq<char>) -> Seq<char> {
    "CREATE OR REPLACE VIEW "@ + alias + ".main."@ + table + " AS SELECT * FROM "@ + synth_fn_name(
        alias,
        table,
    ) + "()"@
}

fn build_view_sql(alias: &str, table: &str) -> (r: String)
    ensures
        r@ == view_sql(alias@, table@),
{
    let mut out = "CREATE OR REPLACE VIEW ".to_owned();
    out.append(alias);
    out.append(".main.");
    out.append(table);
    out.append(" AS SELECT * FROM ");
    out.append(at5_synth_fn_name(alias, table).as_str());
    out.append("()");
    out
}

// ---------------------------------------------------------------------------
// The run of one statement
// ---------------------------------------------------------------------------

/// A table of the foreign catalog, ready to be registered with the core.
#[derive(Debug)]
pub struct TableShape {
    pub name: String,
    pub columns: Vec<core_types::ColumnDescriptor>,
    pub callback: u32,
}

/// How far an `ATTACH` has come.
#[derive(Clone, Copy, Debug, PartialEq, Eq, Structural)]
pub enum AttachPhase {
    /// The foreign catalog is being opened.
    Opening,
    /// Its tables are being listed.
    Listing,
    /// The columns of the table with this index are being fetched.
    Describing(usize),
    /// The table function of the table with this index is being registered.
    Registering(usize),
    /// The alias is being attached to an empty database.
    AttachingMemory,
    /// The view of the table with this index is being created.
    CreatingView(usize),
    /// The extension is being asked whether writes persist by themselves.
    Probing,
    Finished,
}

/// The run of one `ATTACH`.
#[derive(Debug)]
pub struct AttachRun {
    pub spec_: AttachSpec,
    pub extension: String,
    pub callback_handle: u32,
    pub catalog_handle: u32,
    pub tables: Vec<String>,
    pub shapes: Vec<TableShape>,
    pub phase: AttachPhase,
}

/// The answer to a call into the core that returns nothing of interest.
#[derive(Debug)]
pub enum Reply<E> {
    Done,
    Failed(E),
    /// The call did not complete.
    Trapped(String),
}

#[derive(Debug)]
pub enum AttachEvent {
    Opened(Result<u32, extension_types::Duckerror>),
    Listed(Result<Vec<String>, extension_types::Duckerror>),
    Described(Result<Vec<extension_types::Columndef>, extension_types::Duckerror>),
    Registered(Reply<String>),
    Executed(Reply<core_types::Duckerror>),
    Probed(Result<bool, extension_types::Duckerror>),
}

#[derive(Debug)]
pub enum AttachAction {
    /// Have the extension open the catalog, through the backend with this handle.
    OpenCatalog { extension: String, handle: u32, dsn: String },
    ListTables { extension: String, handle: u32, catalog: u32 },
    DescribeTable { extension: String, handle: u32, catalog: u32, table: String },
    /// Register the table function of the shape with this index of the run.
    RegisterFunction { name: String, shape: usize },
    Execute { sql: String },
    ProbePersistence { extension: String, handle: u32 },
    Finish(Result<cli_types::QueryResult, cli_types::Duckerror>),
    /// The event does not belong to the phase; nothing is to be done.
    Ignore,
}

impl AttachRun {
    /// The phase points at a table that is there.
    pub open spec fn wf(&self) -> bool {
        match self.phase {
            AttachPhase::Describing(i) => i < self.tables@.len() && self.shapes@.len() == i,
            AttachPhase::Registering(i) => i < self.shapes@.len() == self.tables@.len(),
            AttachPhase::CreatingView(i) => i < self.shapes@.len() == self.tables@.len(),
            AttachPhase::AttachingMemory => self.shapes@.len() == self.tables@.len(),
            AttachPhase::Probing => self.shapes@.len() == self.tables@.len(),
            AttachPhase::Opening => self.shapes@.len() == 0,
            AttachPhase::Listing => self.shapes@.len() == 0,
            AttachPhase::Finished => true,
        }
    }
}

/// The statement ends with an error.
pub open spec fn fails(action: AttachAction, e: ErrorModel) -> bool {
    action matches AttachAction::Finish(Err(err)) && err@ == e
}

/// The statement ends without rows.
pub open spec fn succeeds(action: AttachAction) -> bool {
    action matches AttachAction::Finish(Ok(qr)) && qr@ == no_rows()
}

/// What is remembered of the catalog when the statement succeeds.
pub open spec fn remembers(run: AttachRun, persists: bool, cat: AttachedForeignCatalog) -> bool {
    &&& cat.extension@ == run.extension@
    &&& cat.catalog_handle == run.catalog_handle
    &&& cat.callback_handle == run.callback_handle
    &&& cat.ty_name@ == run.spec_.ty_name@
    &&& views(cat.tables@) == views(run.tables@)
    &&& cat.table_callbacks@.len() == run.shapes@.len()
    &&& forall|i: int|
        0 <= i < run.shapes@.len() ==> (#[trigger] cat.table_callbacks@[i]).0@ == run.shapes@[i].name@
            && cat.table_callbacks@[i].1 == run.shapes@[i].callback
    &&& crate::model::view_opt(cat.dsn_path) == dsn_path(run.spec_.dsn@)
    &&& cat.read_only == run.spec_.read_only
    &&& cat.writes_persist_directly == persists
}

/// The statement succeeds: the alias stands for the catalog from now on, and every
/// other alias for what it stood for.
pub open spec fn completes(
    run: AttachRun,
    persists: bool,
    before: Map<Seq<char>, AttachedForeignCatalog>,
    after: AttachRun,
    action: AttachAction,
    now: Map<Seq<char>, AttachedForeignCatalog>,
) -> bool {
    let alias = run.spec_.alias@;
    &&& after == (AttachRun { phase: AttachPhase::Finished, ..run })
    &&& succeeds(action)
    &&& now.contains_key(alias)
    &&& now == before.insert(alias, now[alias])
    &&& remembers(run, persists, now[alias])
}

/// The views from index `i` on are still to be made.
pub open spec fn goes_to_view(
    run: AttachRun,
    i: int,
    before: Map<Seq<char>, AttachedForeignCatalog>,
    after: AttachRun,
    action: AttachAction,
    now: Map<Seq<char>, AttachedForeignCatalog>,
) -> bool {
    if i < run.shapes@.len() {
        &&& after == (AttachRun { phase: AttachPhase::CreatingView(i as usize), ..run })
        &&& action matches AttachAction::Execute { sql }
        &&& sql@ == view_sql(run.spec_.alias@, run.shapes@[i].name@)
        &&& now == before
    } else if run.spec_.read_only {
        completes(run, false, before, after, action, now)
    } else {
        &&& after == (AttachRun { phase: AttachPhase::Probing, ..run })
        &&& action == (AttachAction::ProbePersistence {
            extension: run.extension,
            handle: run.callback_handle,
        })
        &&& now == before
    }
}

/// The table functions from index `i` on are still to be registered.
pub open spec fn goes_to_register(
    run: AttachRun,
    i: int,
    before: Map<Seq<char>, AttachedForeignCatalog>,
    after: AttachRun,
    action: AttachAction,
    now: Map<Seq<char>, AttachedForeignCatalog>,
) -> bool {
    if i < run.shapes@.len() {
        &&& after == (AttachRun { phase: AttachPhase::Registering(i as usize), ..run })
        &&& action matches AttachAction::RegisterFunction { name, shape }
        &&& name@ == synth_fn_name(run.spec_.alias@, run.shapes@[i].name@)
        &&& shape == i
        &&& now == before
    } else if before.contains_key(run.spec_.alias@) {
        goes_to_view(run, 0, before, after, action, now)
    } else {
        &&& after == (AttachRun { phase: AttachPhase::AttachingMemory, ..run })
        &&& action matches AttachAction::Execute { sql }
        &&& sql@ == attach_memory_sql(run.spec_.alias@)
        &&& now == before
    }
}

/// The tables from index `i` on are still to be described.
pub open spec fn goes_to_describe(
    run: AttachRun,
    i: int,
    before: Map<Seq<char>, AttachedForeignCatalog>,
    after: AttachRun,
    action: AttachAction,
    now: Map<Seq<char>, AttachedForeignCatalog>,
) -> bool {
    if i < run.tables@.len() {
        &&& after == (AttachRun { phase: AttachPhase::Describing(i as usize), ..run })
        &&& action == (AttachAction::DescribeTable {
            extension: run.extension,
            handle: run.callback_handle,
            catalog: run.catalog_handle,
            table: run.tables@[i],
        })
        &&& now == before
    } else {
        goes_to_register(run, 0, before, after, action, now)
    }
}

/// The statement ends with an error, and nothing is remembered of it.
pub open spec fn aborts(
    run: AttachRun,
    e: ErrorModel,
    before: Map<Seq<char>, AttachedForeignCatalog>,
    after: AttachRun,
    action: AttachAction,
    now: Map<Seq<char>, AttachedForeignCatalog>,
) -> bool {
    &&& after == (AttachRun { phase: AttachPhase::Finished, ..run })
    &&& fails(action, e)
    &&& now == before
}

/// The shape of a table: its columns as the core sees them, and its scan handle.
pub open spec fn shape_of(
    shape: TableShape,
    table: Seq<char>,
    columns: Seq<ColumnModel>,
    callback: u32,
) -> bool {
    &&& shape.name@ == table
    &&& views(shape.columns@) == columns
    &&& shape.callback == callback
}

/// The step allots a scan handle: the columns of a table have come.
pub open spec fn allots(run: AttachRun, event: AttachEvent) -> bool {
    run.phase is Describing && (event matches AttachEvent::Described(Ok(_)))
}

/// One step of an `ATTACH`: from the phase and the answer that came to the next
/// phase and what is to be done. `scans` and `scans_now` are the scan handles in
/// use before and after, `cursor` the place where the search for one begins.
pub open spec fn attach_next(
    run: AttachRun,
    event: AttachEvent,
    before: Map<Seq<char>, AttachedForeignCatalog>,
    scans: Map<u32, At5ScanTarget>,
    cursor: u32,
    after: AttachRun,
    action: AttachAction,
    now: Map<Seq<char>, AttachedForeignCatalog>,
    scans_now: Map<u32, At5ScanTarget>,
) -> bool {
    match (run.phase, event) {
        (AttachPhase::Opening, AttachEvent::Opened(Ok(catalog))) => {
            &&& after == (AttachRun {
                catalog_handle: catalog,
                phase: AttachPhase::Listing,
                ..run
            })
            &&& action == (AttachAction::ListTables {
                extension: run.extension,
                handle: run.callback_handle,
                catalog,
            })
            &&& now == before
            &&& scans_now == scans
        },
        (AttachPhase::Opening, AttachEvent::Opened(Err(e))) => aborts(
            run,
            e@,
            before,
            after,
            action,
            now,
        ) && scans_now == scans,
        (AttachPhase::Listing, AttachEvent::Listed(Ok(tables))) => goes_to_describe(
            AttachRun { tables, ..run },
            0,
            before,
            after,
            action,
            now,
        ) && scans_now == scans,
        (AttachPhase::Listing, AttachEvent::Listed(Err(e))) => aborts(
            run,
            e@,
            before,
            after,
            action,
            now,
        ) && scans_now == scans,
        (AttachPhase::Describing(i), AttachEvent::Described(Ok(columns))) => {
            let handle = free_from(scans.dom(), cursor, scan_handles());
            &&& after.shapes@ == run.shapes@.push(after.shapes@.last())
            &&& shape_of(after.shapes@.last(), run.tables@[i as int]@, views(columns@), handle)
            &&& scans_now == scans.insert(
                handle,
                At5ScanTarget {
                    extension: run.extension,
                    storage_handle: run.callback_handle,
                    catalog_handle: run.catalog_handle,
                    table: run.tables@[i as int],
                },
            )
            &&& goes_to_describe(
                AttachRun { shapes: after.shapes, ..run },
                i + 1,
                before,
                after,
                action,
                now,
            )
        },
        (AttachPhase::Describing(i), AttachEvent::Described(Err(e))) => aborts(
            run,
            e@,
            before,
            after,
            action,
            now,
        ) && scans_now == scans,
        (AttachPhase::Registering(i), AttachEvent::Registered(reply)) => {
            &&& scans_now == scans
            &&& match reply {
                Reply::Done => goes_to_register(run, i + 1, before, after, action, now),
                Reply::Failed(msg) => aborts(
                    run,
                    ErrorModel::Internal(
                        "register_table_function for '"@ + synth_fn_name(
                            run.spec_.alias@,
                            run.shapes@[i as int].name@,
                        ) + "' failed: "@ + msg@,
                    ),
                    before,
                    after,
                    action,
                    now,
                ),
                Reply::Trapped(t) => aborts(run, ErrorModel::Internal(t@), before, after, action, now),
            }
        },
        (AttachPhase::AttachingMemory, AttachEvent::Executed(reply)) => {
            &&& scans_now == scans
            &&& match reply {
                Reply::Done => goes_to_view(run, 0, before, after, action, now),
                Reply::Failed(e) => aborts(run, e@, before, after, action, now),
                Reply::Trapped(t) => aborts(run, ErrorModel::Internal(t@), before, after, action, now),
            }
        },
        (AttachPhase::CreatingView(i), AttachEvent::Executed(reply)) => {
            &&& scans_now == scans
            &&& match reply {
                Reply::Done => goes_to_view(run, i + 1, before, after, action, now),
                Reply::Failed(e) => aborts(run, e@, before, after, action, now),
                Reply::Trapped(t) => aborts(run, ErrorModel::Internal(t@), before, after, action, now),
            }
        },
        (AttachPhase::Probing, AttachEvent::Probed(probe)) => completes(
            run,
            probe == Ok::<bool, extension_types::Duckerror>(true),
            before,
            after,
            action,
            now,
        ) && scans_now == scans,
        _ => after == run && action is Ignore && now == before && scans_now == scans,
    }
}

// ---------------------------------------------------------------------------
// The steps
// ---------------------------------------------------------------------------

/// How an `ATTACH` begins: the extension that is registered for its type is to open the
/// catalog.
pub fn begin_attach(
    manager: &ExtensionManager,
    spec_: AttachSpec,
    attached: &NameMap<AttachedForeignCatalog>,
) -> (r: Result<(AttachRun, AttachAction), Result<cli_types::QueryResult, cli_types::Duckerror>>)
    ensures
        if !manager.storage_backends@.contains_key(spec_.ty_name@) {
            r matches Err(Err(e)) && e@ == ErrorModel::Invalidargument(
                "No storage extension registered for TYPE "@ + spec_.ty_name@ + " (attach '"@
                    + spec_.dsn@ + "' AS "@ + spec_.alias@ + ")"@,
            )
        } else if spec_.if_not_exists && attached@.contains_key(spec_.alias@) {
            r matches Err(Ok(qr)) && qr@ == no_rows()
        } else {
            let (extension, callback_handle) = manager.storage_backends@[spec_.ty_name@];
            &&& r matches Ok((run, action))
            &&& run.wf()
            &&& run.phase is Opening
            &&& run.spec_ == spec_
            &&& run.extension == extension
            &&& run.callback_handle == callback_handle
            &&& run.tables@.len() == 0
            &&& run.shapes@.len() == 0
            &&& action == (AttachAction::OpenCatalog {
                extension,
                handle: callback_handle,
                dsn: spec_.dsn,
            })
        },
{
    match manager.storage_backend_for(spec_.ty_name.as_str()) {
        None => {
            let mut m = "No storage extension registered for TYPE ".to_owned();
            m.append(spec_.ty_name.as_str());
            m.append(" (attach '");
            m.append(spec_.dsn.as_str());
            m.append("' AS ");
            m.append(spec_.alias.as_str());
            m.append(")");
            Err(Err(cli_types::Duckerror::Invalidargument(m)))
        },
        Some((extension, callback_handle)) => {
            if spec_.if_not_exists && attached.contains(spec_.alias.as_str()) {
                return Err(Ok(empty_query_result()));
            }
            let action = AttachAction::OpenCatalog {
                extension: extension.clone(),
                handle: callback_handle,
                dsn: spec_.dsn.clone(),
            };
            Ok(
                (
                    AttachRun {
                        spec_,
                        extension,
                        callback_handle,
                        catalog_handle: 0,
                        tables: Vec::new(),
                        shapes: Vec::new(),
                        phase: AttachPhase::Opening,
                    },
                    action,
                ),
            )
        },
    }
}

fn complete(
    run: AttachRun,
    persists: bool,
    attached: &mut NameMap<AttachedForeignCatalog>,
) -> (r: (AttachRun, AttachAction))
    ensures
        completes(run, persists, old(attached)@, r.0, r.1, final(attached)@),
        r.0.wf(),
        old(attached).wf() ==> final(attached).wf(),
{
    let mut tables: Vec<String> = Vec::new();
    let mut i: usize = 0;
    while i < run.tables.len()
        invariant
            i <= run.tables@.len(),
            tables@.len() == i,
            forall|j: int| 0 <= j < i ==> (#[trigger] tables@[j])@ == run.tables@[j]@,
        decreases run.tables@.len() - i,
    {
        tables.push(run.tables[i].clone());
        i += 1;
    }
    assert(views(tables@) =~= views(run.tables@));
    let mut table_callbacks: Vec<(String, u32)> = Vec::new();
    let mut k: usize = 0;
    while k < run.shapes.len()
        invariant
            k <= run.shapes@.len(),
            table_callbacks@.len() == k,
            forall|j: int|
                0 <= j < k ==> (#[trigger] table_callbacks@[j]).0@ == run.shapes@[j].name@
                    && table_callbacks@[j].1 == run.shapes@[j].callback,
        decreases run.shapes@.len() - k,
    {
        table_callbacks.push((run.shapes[k].name.clone(), run.shapes[k].callback));
        k += 1;
    }
    let cat = AttachedForeignCatalog {
        extension: run.extension.clone(),
        catalog_handle: run.catalog_handle,
        callback_handle: run.callback_handle,
        ty_name: run.spec_.ty_name.clone(),
        tables,
        table_callbacks,
        dsn_path: resolve_attach_dsn_path(run.spec_.dsn.as_str()),
        read_only: run.spec_.read_only,
        writes_persist_directly: persists,
    };
    attached.insert(run.spec_.alias.clone(), cat);
    let mut run = run;
    run.phase = AttachPhase::Finished;
    (run, AttachAction::Finish(Ok(empty_query_result())))
}

fn enter_view(
    run: AttachRun,
    i: usize,
    attached: &mut NameMap<AttachedForeignCatalog>,
) -> (r: (AttachRun, AttachAction))
    requires
        run.shapes@.len() == run.tables@.len(),
    ensures
        goes_to_view(run, i as int, old(attached)@, r.0, r.1, final(attached)@),
        r.0.wf(),
        old(attached).wf() ==> final(attached).wf(),
{
    if i < run.shapes.len() {
        let sql = build_view_sql(run.spec_.alias.as_str(), run.shapes[i].name.as_str());
        let mut run = run;
        run.phase = AttachPhase::CreatingView(i);
        (run, AttachAction::Execute { sql })
    } else if run.spec_.read_only {
        complete(run, false, attached)
    } else {
        let action = AttachAction::ProbePersistence {
            extension: run.extension.clone(),
            handle: run.callback_handle,
        };
        let mut run = run;
        run.phase = AttachPhase::Probing;
        (run, action)
    }
}

fn enter_register(
    run: AttachRun,
    i: usize,
    attached: &mut NameMap<AttachedForeignCatalog>,
) -> (r: (AttachRun, AttachAction))
    requires
        run.shapes@.len() == run.tables@.len(),
    ensures
        goes_to_register(run, i as int, old(attached)@, r.0, r.1, final(attached)@),
        r.0.wf(),
        old(attached).wf() ==> final(attached).wf(),
{
    if i < run.shapes.len() {
        let name = at5_synth_fn_name(run.spec_.alias.as_str(), run.shapes[i].name.as_str());
        let mut run = run;
        run.phase = AttachPhase::Registering(i);
        (run, AttachAction::RegisterFunction { name, shape: i })
    } else if attached.contains(run.spec_.alias.as_str()) {
        enter_view(run, 0, attached)
    } else {
        let mut sql = "ATTACH ':memory:' AS ".to_owned();
        sql.append(run.spec_.alias.as_str());
        let mut run = run;
        run.phase = AttachPhase::AttachingMemory;
        (run, AttachAction::Execute { sql })
    }
}

fn enter_describe(
    run: AttachRun,
    i: usize,
    attached: &mut NameMap<AttachedForeignCatalog>,
) -> (r: (AttachRun, AttachAction))
    requires
        run.shapes@.len() == i,
        i <= run.tables@.len(),
    ensures
        goes_to_describe(run, i as int, old(attached)@, r.0, r.1, final(attached)@),
        r.0.wf(),
        old(attached).wf() ==> final(attached).wf(),
{
    if i < run.tables.len() {
        let action = AttachAction::DescribeTable {
            extension: run.extension.clone(),
            handle: run.callback_handle,
            catalog: run.catalog_handle,
            table: run.tables[i].clone(),
        };
        let mut run = run;
        run.phase = AttachPhase::Describing(i);
        (run, action)
    } else {
        enter_register(run, 0, attached)
    }
}

fn abort(run: AttachRun, err: cli_types::Duckerror) -> (r: (AttachRun, AttachAction))
    ensures
        r.0 == (AttachRun { phase: AttachPhase::Finished, ..run }),
        r.0.wf(),
        fails(r.1, err@),
{
    let mut run = run;
    run.phase = AttachPhase::Finished;
    (run, AttachAction::Finish(Err(err)))
}

fn describe_columns(cols: Vec<extension_types::Columndef>) -> (r: Vec<core_types::ColumnDescriptor>)
    ensures
        views(r@) == views(cols@),
{
    let mut out: Vec<core_types::ColumnDescriptor> = Vec::new();
    for c in it: cols
        invariant
            it.seq() == cols@,
            out@.len() == it.index(),
            forall|i: int| 0 <= i < out@.len() ==> (#[trigger] out@[i])@ == cols@[i]@,
    {
        out.push(
            core_types::ColumnDescriptor {
                name: c.name,
                ty: convert_extension_logicaltype_to_core(c.logical),
            },
        );
    }
    assert(views(out@) =~= views(cols@));
    out
}

/// Takes the answer that came and says what is to be done next.
pub fn intercept_attach(
    run: AttachRun,
    event: AttachEvent,
    attached: &mut NameMap<AttachedForeignCatalog>,
    scans: &mut ScanRegistry,
) -> (r: (AttachRun, AttachAction))
    requires
        run.wf(),
        old(scans).wf(),
        allots(run, event) ==> exists|f: u32| is_scan_handle(f) && !old(scans)@.contains_key(f),
    ensures
        attach_next(
            run,
            event,
            old(attached)@,
            old(scans)@,
            old(scans).cursor(),
            r.0,
            r.1,
            final(attached)@,
            final(scans)@,
        ),
        r.0.wf(),
        final(scans).wf(),
        old(attached).wf() ==> final(attached).wf(),
{
    let tables: usize = run.tables.len();
    let shapes: usize = run.shapes.len();
    match (run.phase, event) {
        (AttachPhase::Opening, AttachEvent::Opened(Ok(catalog))) => {
            let action = AttachAction::ListTables {
                extension: run.extension.clone(),
                handle: run.callback_handle,
                catalog,
            };
            let mut run = run;
            run.catalog_handle = catalog;
            run.phase = AttachPhase::Listing;
            (run, action)
        },
        (AttachPhase::Opening, AttachEvent::Opened(Err(e))) => abort(run, cli_extension_duckerror(e)),
        (AttachPhase::Listing, AttachEvent::Listed(Ok(tables))) => {
            let mut run = run;
            run.tables = tables;
            enter_describe(run, 0, attached)
        },
        (AttachPhase::Listing, AttachEvent::Listed(Err(e))) => abort(run, cli_extension_duckerror(e)),
        (AttachPhase::Describing(i), AttachEvent::Described(Ok(cols))) => {
            let columns = describe_columns(cols);
            let callback: u32 = scans.register_at5_scan(
                run.extension.clone(),
                run.callback_handle,
                run.catalog_handle,
                run.tables[i].clone(),
            );
            let mut run = run;
            let name = run.tables[i].clone();
            run.shapes.push(TableShape { name, columns, callback });
            assert(i < tables);
            enter_describe(run, i + 1, attached)
        },
        (AttachPhase::Describing(_), AttachEvent::Described(Err(e))) => abort(
            run,
            cli_extension_duckerror(e),
        ),
        (AttachPhase::Registering(i), AttachEvent::Registered(reply)) => match reply {
            Reply::Done => {
                assert(i < shapes);
                enter_register(run, i + 1, attached)
            },
            Reply::Failed(msg) => {
                let mut m = "register_table_function for '".to_owned();
                m.append(at5_synth_fn_name(run.spec_.alias.as_str(), run.shapes[i].name.as_str()).as_str());
                m.append("' failed: ");
                m.append(msg.as_str());
                abort(run, cli_types::Duckerror::Internal(m))
            },
            Reply::Trapped(t) => abort(run, cli_types::Duckerror::Internal(t)),
        },
        (AttachPhase::AttachingMemory, AttachEvent::Executed(reply)) => match reply {
            Reply::Done => enter_view(run, 0, attached),
            Reply::Failed(e) => abort(run, convert_core_duckerror(e)),
            Reply::Trapped(t) => abort(run, cli_types::Duckerror::Internal(t)),
        },
        (AttachPhase::CreatingView(i), AttachEvent::Executed(reply)) => match reply {
            Reply::Done => {
                assert(i < shapes);
                enter_view(run, i + 1, attached)
            },
            Reply::Failed(e) => abort(run, convert_core_duckerror(e)),
            Reply::Trapped(t) => abort(run, cli_types::Duckerror::Internal(t)),
        },
        (AttachPhase::Probing, AttachEvent::Probed(probe)) => {
            let persists: bool = match probe {
                Ok(flag) => flag,
                Err(_) => false,
            };
            complete(run, persists, attached)
        },
        _ => (run, AttachAction::Ignore),
    }
}

// ---------------------------------------------------------------------------
// Laws
// ---------------------------------------------------------------------------

/// The extension that an action asks, and the handle that it asks through.
pub open spec fn asked(action: AttachAction) -> Option<(String, u32)> {
    match action {
        AttachAction::OpenCatalog { extension, handle, .. } => Some((extension, handle)),
        AttachAction::ListTables { extension, handle, .. } => Some((extension, handle)),
        AttachAction::DescribeTable { extension, handle, .. } => Some((extension, handle)),
        AttachAction::ProbePersistence { extension, handle } => Some((extension, handle)),
        _ => None,
    }
}

/// No step of an `ATTACH` asks any extension but the one that was registered for its type,
/// nor through another handle, and what is remembered in the end names the same two.
pub proof fn law_attach_stays_with_its_backend(
    run: AttachRun,
    event: AttachEvent,
    before: Map<Seq<char>, AttachedForeignCatalog>,
    scans: Map<u32, At5ScanTarget>,
    cursor: u32,
    after: AttachRun,
    action: AttachAction,
    now: Map<Seq<char>, AttachedForeignCatalog>,
    scans_now: Map<u32, At5ScanTarget>,
)
    requires
        attach_next(run, event, before, scans, cursor, after, action, now, scans_now),
    ensures
        after.extension == run.extension,
        after.callback_handle == run.callback_handle,
        after.spec_ == run.spec_,
        asked(action) matches Some(b) ==> b == (run.extension, run.callback_handle),
        succeeds(action) ==> {
            &&& now.contains_key(run.spec_.alias@)
            &&& now[run.spec_.alias@].extension@ == run.extension@
            &&& now[run.spec_.alias@].callback_handle == run.callback_handle
            &&& now[run.spec_.alias@].read_only == run.spec_.read_only
        },
{
}

/// An `ATTACH` that ends with an error leaves every alias as it was.
pub proof fn law_failed_attach_changes_no_alias(
    run: AttachRun,
    event: AttachEvent,
    before: Map<Seq<char>, AttachedForeignCatalog>,
    scans: Map<u32, At5ScanTarget>,
    cursor: u32,
    after: AttachRun,
    action: AttachAction,
    now: Map<Seq<char>, AttachedForeignCatalog>,
    scans_now: Map<u32, At5ScanTarget>,
)
    requires
        attach_next(run, event, before, scans, cursor, after, action, now, scans_now),
        !succeeds(action),
    ensures
        now == before,
{
}

/// No step of an `ATTACH` touches an alias other than its own.
pub proof fn law_attach_keeps_other_aliases(
    run: AttachRun,
    event: AttachEvent,
    before: Map<Seq<char>, AttachedForeignCatalog>,
    scans: Map<u32, At5ScanTarget>,
    cursor: u32,
    after: AttachRun,
    action: AttachAction,
    now: Map<Seq<char>, AttachedForeignCatalog>,
    scans_now: Map<u32, At5ScanTarget>,
    other: Seq<char>,
)
    requires
        attach_next(run, event, before, scans, cursor, after, action, now, scans_now),
        other != run.spec_.alias@,
    ensures
        now.contains_key(other) == before.contains_key(other),
        before.contains_key(other) ==> now[other] == before[other],
{
}

/// Every table that is ready to be registered is one of the listed tables in their
/// order, and its scan handle leads to that table of the opened catalog.
pub open spec fn routed(run: AttachRun, scans: Map<u32, At5ScanTarget>) -> bool {
    &&& run.shapes@.len() <= run.tables@.len()
    &&& forall|i: int|
        #![trigger run.shapes@[i]]
        0 <= i < run.shapes@.len() ==> {
            let shape = run.shapes@[i];
            &&& shape.name@ == run.tables@[i]@
            &&& scans.contains_key(shape.callback)
            &&& scans[shape.callback].table@ == shape.name@
            &&& scans[shape.callback].extension == run.extension
            &&& scans[shape.callback].storage_handle == run.callback_handle
            &&& scans[shape.callback].catalog_handle == run.catalog_handle
        }
}

/// Throughout an `ATTACH` the tables stay routed, and no scan handle that was in
/// use before loses what it stands for.
pub proof fn law_attached_tables_are_routed(
    run: AttachRun,
    event: AttachEvent,
    before: Map<Seq<char>, AttachedForeignCatalog>,
    scans: Map<u32, At5ScanTarget>,
    cursor: u32,
    after: AttachRun,
    action: AttachAction,
    now: Map<Seq<char>, AttachedForeignCatalog>,
    scans_now: Map<u32, At5ScanTarget>,
    free: u32,
)
    requires
        run.wf(),
        after.wf(),
        routed(run, scans),
        is_scan_handle(cursor),
        is_scan_handle(free),
        !scans.contains_key(free),
        attach_next(run, event, before, scans, cursor, after, action, now, scans_now),
        !(action is Finish),
    ensures
        routed(after, scans_now),
        scans.submap_of(scans_now),
{
    crate::scan::law_allotted_handle_is_free(scans.dom(), cursor, free, scan_handles());
    if run.phase is Describing && event is Described && event->Described_0 is Ok {
        let last = after.shapes@.last();
        assert forall|i: int|
            #![trigger after.shapes@[i]]
            0 <= i < after.shapes@.len() implies {
            let shape = after.shapes@[i];
            &&& shape.name@ == after.tables@[i]@
            &&& scans_now.contains_key(shape.callback)
            &&& scans_now[shape.callback].table@ == shape.name@
            &&& scans_now[shape.callback].extension == after.extension
            &&& scans_now[shape.callback].storage_handle == after.callback_handle
            &&& scans_now[shape.callback].catalog_handle == after.catalog_handle
        } by {
            if i < run.shapes@.len() {
                assert(after.shapes@[i] == run.shapes@[i]);
            }
        }
    }
}

/// The view of a table selects everything from the function "__<alias>_<table>" with no
/// argument, and no clause stands behind the call.
pub proof fn law_view_selects_all_of_its_function(alias: Seq<char>, table: Seq<char>)
    ensures
        synth_fn_name(alias, table) == "__"@ + alias + "_"@ + table,
        view_sql(alias, table) == "CREATE OR REPLACE VIEW "@ + alias + ".main."@ + table + (
        " AS SELECT * FROM __"@ + alias + "_"@ + table + "()"@),
        attach_memory_sql(alias) == "ATTACH ':memory:' AS "@ + alias,
{
    reveal_strlit("__");
    reveal_strlit(" AS SELECT * FROM ");
    reveal_strlit(" AS SELECT * FROM __");
    assert(" AS SELECT * FROM __"@ =~= " AS SELECT * FROM "@ + "__"@);
    let tail = " AS SELECT * FROM __"@ + alias + "_"@ + table + "()"@;
    assert(tail =~= " AS SELECT * FROM "@ + ("__"@ + alias + "_"@ + table) + "()"@);
    assert(view_sql(alias, table) =~= "CREATE OR REPLACE VIEW "@ + alias + ".main."@ + table + tail);
}

/// The view of a table calls the very function that was registered for the table.
pub proof fn law_view_calls_what_was_registered(
    run: AttachRun,
    event: AttachEvent,
    before: Map<Seq<char>, AttachedForeignCatalog>,
    scans: Map<u32, At5ScanTarget>,
    cursor: u32,
    after: AttachRun,
    action: AttachAction,
    now: Map<Seq<char>, AttachedForeignCatalog>,
    scans_now: Map<u32, At5ScanTarget>,
    registered: AttachRun,
    reply: AttachEvent,
    waiting: AttachRun,
    name: String,
    i: usize,
    sql: String,
)
    requires
        attach_next(
            registered,
            reply,
            before,
            scans,
            cursor,
            waiting,
            AttachAction::RegisterFunction { name, shape: i },
            before,
            scans,
        ),
        attach_next(run, event, before, scans, cursor, after, action, now, scans_now),
        run.spec_ == waiting.spec_,
        run.shapes == waiting.shapes,
        registered.phase is Registering || registered.phase is Describing,
        run.phase is Registering || run.phase is AttachingMemory || run.phase is CreatingView,
        action == (AttachAction::Execute { sql }),
        after.phase == (AttachPhase::CreatingView(i)),
    ensures
        sql@ == "CREATE OR REPLACE VIEW "@ + run.spec_.alias@ + ".main."@ + run.shapes@[i as int].name@
            + " AS SELECT * FROM "@ + name@ + "()"@,
{
    assert(run.shapes@.len() == run.shapes.len());
    assert(view_sql(run.spec_.alias@, run.shapes@[i as int].name@) =~= "CREATE OR REPLACE VIEW "@
        + run.spec_.alias@ + ".main."@ + run.shapes@[i as int].name@ + " AS SELECT * FROM "@ + name@
        + "()"@);
}

/// What is asked of the extension and of the database in each phase: the catalog that was
/// opened is listed, the tables are described in the order of the list, a function named
/// "__<alias>_<table>" is registered for each, the alias is attached to an empty database
/// under its own name, and a view is created for each table.
pub proof fn law_attach_asks_for_what_it_waits_for(
    run: AttachRun,
    event: AttachEvent,
    before: Map<Seq<char>, AttachedForeignCatalog>,
    scans: Map<u32, At5ScanTarget>,
    cursor: u32,
    after: AttachRun,
    action: AttachAction,
    now: Map<Seq<char>, AttachedForeignCatalog>,
    scans_now: Map<u32, At5ScanTarget>,
)
    requires
        run.wf(),
        attach_next(run, event, before, scans, cursor, after, action, now, scans_now),
    ensures
        match action {
            AttachAction::OpenCatalog { .. } => false,
            AttachAction::ListTables { catalog, .. } => after.phase is Listing && event == (
            AttachEvent::Opened(Ok(catalog))) && after.catalog_handle == catalog,
            AttachAction::DescribeTable { catalog, table, .. } => after.phase matches
                AttachPhase::Describing(i) && table == after.tables@[i as int] && catalog
                == after.catalog_handle,
            AttachAction::RegisterFunction { name, shape } => after.phase == (
            AttachPhase::Registering(shape)) && name@ == "__"@ + after.spec_.alias@ + "_"@
                + after.shapes@[shape as int].name@,
            AttachAction::Execute { sql } => match after.phase {
                AttachPhase::AttachingMemory => !before.contains_key(run.spec_.alias@) && sql@
                    == "ATTACH ':memory:' AS "@ + run.spec_.alias@,
                AttachPhase::CreatingView(i) => sql@ == "CREATE OR REPLACE VIEW "@ + run.spec_.alias@
                    + ".main."@ + after.shapes@[i as int].name@ + (" AS SELECT * FROM __"@
                    + run.spec_.alias@ + "_"@ + after.shapes@[i as int].name@ + "()"@),
                _ => false,
            },
            AttachAction::ProbePersistence { .. } => after.phase is Probing && !run.spec_.read_only,
            AttachAction::Finish(_) => after.phase is Finished,
            AttachAction::Ignore => after == run,
        },
{
    assert(run.shapes@.len() == run.shapes.len());
    assert(after.shapes@.len() == after.shapes.len());
    assert(after.tables@.len() == after.tables.len());
    match after.phase {
        AttachPhase::CreatingView(i) => {
            law_view_selects_all_of_its_function(run.spec_.alias@, after.shapes@[i as int].name@);
        },
        _ => {},
    }
}

/// The tables are gone through one by one: the next phase is for the next table, or, behind
/// the last, for the first table of the stage that follows.
pub proof fn law_attach_skips_no_table(
    run: AttachRun,
    event: AttachEvent,
    before: Map<Seq<char>, AttachedForeignCatalog>,
    scans: Map<u32, At5ScanTarget>,
    cursor: u32,
    after: AttachRun,
    action: AttachAction,
    now: Map<Seq<char>, AttachedForeignCatalog>,
    scans_now: Map<u32, At5ScanTarget>,
)
    requires
        run.wf(),
        attach_next(run, event, before, scans, cursor, after, action, now, scans_now),
        !(action is Ignore),
        !(action is Finish),
    ensures
        match (run.phase, after.phase) {
            (AttachPhase::Opening, AttachPhase::Listing) => true,
            (AttachPhase::Listing, AttachPhase::Describing(j)) => j == 0,
            (AttachPhase::Listing, _) => after.tables@.len() == 0,
            (AttachPhase::Describing(i), AttachPhase::Describing(j)) => j == i + 1,
            (AttachPhase::Describing(i), AttachPhase::Registering(j)) => j == 0 && i + 1
                == run.tables@.len(),
            (AttachPhase::Registering(i), AttachPhase::Registering(j)) => j == i + 1,
            (AttachPhase::Registering(i), AttachPhase::AttachingMemory) => i + 1 == run.shapes@.len(),
            (AttachPhase::Registering(i), AttachPhase::CreatingView(j)) => j == 0 && i + 1
                == run.shapes@.len() && before.contains_key(run.spec_.alias@),
            (AttachPhase::AttachingMemory, AttachPhase::CreatingView(j)) => j == 0,
            (AttachPhase::AttachingMemory, AttachPhase::Probing) => run.shapes@.len() == 0,
            (AttachPhase::CreatingView(i), AttachPhase::CreatingView(j)) => j == i + 1,
            (AttachPhase::CreatingView(i), AttachPhase::Probing) => i + 1 == run.shapes@.len(),
            _ => false,
        },
{
    assert(run.shapes@.len() == run.shapes.len());
    assert(after.shapes@.len() == after.shapes.len());
    assert(after.tables@.len() == after.tables.len());
}

/// An attached catalog is remembered as it was asked for and found: under the backend that
/// serves it, with its type, its tables and their scan handles, and its file. It persists
/// by itself only where the extension says so.
pub proof fn law_attached_catalog_is_as_found(
    run: AttachRun,
    event: AttachEvent,
    before: Map<Seq<char>, AttachedForeignCatalog>,
    scans: Map<u32, At5ScanTarget>,
    cursor: u32,
    after: AttachRun,
    action: AttachAction,
    now: Map<Seq<char>, AttachedForeignCatalog>,
    scans_now: Map<u32, At5ScanTarget>,
    i: int,
)
    requires
        attach_next(run, event, before, scans, cursor, after, action, now, scans_now),
        action is Finish,
        now != before,
    ensures
        now.contains_key(run.spec_.alias@),
        ({
            let cat = now[run.spec_.alias@];
            &&& cat.extension@ == run.extension@
            &&& cat.callback_handle == run.callback_handle
            &&& cat.catalog_handle == run.catalog_handle
            &&& cat.ty_name@ == run.spec_.ty_name@
            &&& cat.read_only == run.spec_.read_only
            &&& view_opt(cat.dsn_path) == dsn_path(run.spec_.dsn@)
            &&& cat.writes_persist_directly <==> event == (AttachEvent::Probed(Ok(true)))
            &&& cat.table_callbacks@.len() == run.shapes@.len()
            &&& 0 <= i < run.shapes@.len() ==> cat.table_callbacks@[i].0@ == run.shapes@[i].name@
                && cat.table_callbacks@[i].1 == run.shapes@[i].callback
            &&& !(run.phase is Listing) ==> {
                &&& cat.tables@.len() == run.tables@.len()
                &&& 0 <= i < run.tables@.len() ==> cat.tables@[i]@ == run.tables@[i]@
            }
        }),
{
    let cat = now[run.spec_.alias@];
    if !(run.phase is Listing) {
        assert(views(cat.tables@) == views(run.tables@));
        assert(views(cat.tables@).len() == views(run.tables@).len());
        if 0 <= i < run.tables@.len() {
            assert(views(cat.tables@)[i] == views(run.tables@)[i]);
        }
    }
}

/// A step that fails ends the attachment with the error that was met.
pub proof fn law_attach_hands_errors_on(
    run: AttachRun,
    event: AttachEvent,
    before: Map<Seq<char>, AttachedForeignCatalog>,
    scans: Map<u32, At5ScanTarget>,
    cursor: u32,
    after: AttachRun,
    action: AttachAction,
    now: Map<Seq<char>, AttachedForeignCatalog>,
    scans_now: Map<u32, At5ScanTarget>,
)
    requires
        attach_next(run, event, before, scans, cursor, after, action, now, scans_now),
        !(action is Ignore),
    ensures
        match event {
            AttachEvent::Opened(Err(e)) => action matches AttachAction::Finish(Err(err)) && err@ == e@,
            AttachEvent::Listed(Err(e)) => action matches AttachAction::Finish(Err(err)) && err@ == e@,
            AttachEvent::Described(Err(e)) => action matches AttachAction::Finish(Err(err)) && err@
                == e@,
            AttachEvent::Executed(Reply::Failed(e)) => action matches AttachAction::Finish(Err(err))
                && err@ == e@,
            AttachEvent::Executed(Reply::Trapped(t)) => action matches AttachAction::Finish(Err(err))
                && err@ == ErrorModel::Internal(t@),
            AttachEvent::Registered(Reply::Trapped(t)) => action matches AttachAction::Finish(Err(err))
                && err@ == ErrorModel::Internal(t@),
            AttachEvent::Registered(Reply::Failed(msg)) => run.phase matches
                AttachPhase::Registering(i) && (action matches AttachAction::Finish(Err(err)) && err@
                == ErrorModel::Internal(
                "register_table_function for '"@ + ("__"@ + run.spec_.alias@ + "_"@
                    + run.shapes@[i as int].name@) + "' failed: "@ + msg@,
            )),
            AttachEvent::Probed(_) => action matches AttachAction::Finish(Ok(qr)) && qr@.rows.len()
                == 0 && qr@.columns.len() == 0,
            _ => !(action matches AttachAction::Finish(Err(_))),
        },
{
}

/// A described table is scanned under a fresh handle, through the backend and the catalog
/// of the run.
pub proof fn law_described_table_gets_a_route(
    run: AttachRun,
    event: AttachEvent,
    before: Map<Seq<char>, AttachedForeignCatalog>,
    scans: Map<u32, At5ScanTarget>,
    cursor: u32,
    after: AttachRun,
    action: AttachAction,
    now: Map<Seq<char>, AttachedForeignCatalog>,
    scans_now: Map<u32, At5ScanTarget>,
    i: usize,
    columns: Vec<extension_types::Columndef>,
    free: u32,
    k: int,
)
    requires
        run.phase == (AttachPhase::Describing(i)),
        event == (AttachEvent::Described(Ok(columns))),
        is_scan_handle(cursor),
        is_scan_handle(free),
        !scans.contains_key(free),
        attach_next(run, event, before, scans, cursor, after, action, now, scans_now),
    ensures
        after.shapes@.len() == run.shapes@.len() + 1,
        after.shapes@.last().name@ == run.tables@[i as int]@,
        after.shapes@.last().columns@.len() == columns@.len(),
        0 <= k < columns@.len() ==> after.shapes@.last().columns@[k].name@ == columns@[k].name@
            && after.shapes@.last().columns@[k].ty@ == columns@[k].logical@,
        ({
            let handle = after.shapes@.last().callback;
            &&& is_scan_handle(handle)
            &&& !scans.contains_key(handle)
            &&& scans_now.contains_key(handle)
            &&& scans_now[handle].extension == run.extension
            &&& scans_now[handle].storage_handle == run.callback_handle
            &&& scans_now[handle].catalog_handle == run.catalog_handle
            &&& scans_now[handle].table == run.tables@[i as int]
            &&& scans_now.remove(handle) == scans
        }),
{
    let handle = free_from(scans.dom(), cursor, scan_handles());
    law_allotted_handle_is_free(scans.dom(), cursor, free, scan_handles());
    assert(scans_now.remove(handle) =~= scans);
    let shape = after.shapes@.last();
    assert(views(shape.columns@).len() == views(columns@).len());
    if 0 <= k < columns@.len() {
        assert(views(shape.columns@)[k] == views(columns@)[k]);
    }
}

/// A DSN that is a bare path names the file of that path.
pub proof fn law_bare_dsn_is_a_path(path: Seq<char>)
    requires
        path.len() > 0,
        !is_white(path[0]),
        !is_white(path.last()),
        lacks(path, '='),
        !has_infix(path, "://"@),
    ensures
        dsn_path(path) == Some(path),
{
    law_trim_leaves_the_rest(path);
    assert(path.take(path.len() as int) =~= path);
    lemma_index_is(path, '=', path.len() as int);
    if has_prefix(path, "file://"@) {
        lemma_file_url_has_a_scheme(path);
    }
}

proof fn lemma_file_url_has_a_scheme(path: Seq<char>)
    requires
        has_prefix(path, "file://"@),
    ensures
        has_infix(path, "://"@),
{
    reveal_strlit("file://");
    reveal_strlit("://");
    let head = path.subrange(0, 7);
    assert(head == "file://"@);
    assert("file://"@.subrange(4, 7) =~= "://"@);
    assert(path.subrange(4, 7) =~= head.subrange(4, 7));
    assert(occurs_at(path, "://"@, 4));
}

/// A DSN "file://" with a path names the file of that path.
pub proof fn law_file_dsn_is_a_path(path: Seq<char>)
    requires
        path.len() == 0 || !is_white(path.last()),
    ensures
        dsn_path("file://"@ + path) == Some(path),
{
    reveal_strlit("file://");
    let s = "file://"@ + path;
    assert(!is_white(s[0]));
    assert(path.len() == 0 ==> s.last() == '/');
    assert(path.len() > 0 ==> s.last() == path.last());
    law_trim_leaves_the_rest(s);
    assert("file://"@.len() == 7);
    assert(s.subrange(0, 0int + "file://"@.len()) =~= "file://"@);
    assert(occurs_at(s, "file://"@, 0));
    assert(has_prefix(s, "file://"@));
    assert(s.skip(7) =~= path);
}

/// A DSN that is a URL of another scheme names no file.
pub proof fn law_other_urls_name_no_file(scheme: Seq<char>, rest: Seq<char>)
    requires
        !is_white((scheme + "://"@ + rest)[0]),
        !is_white((scheme + "://"@ + rest).last()),
        !has_prefix(scheme + "://"@ + rest, "file://"@),
    ensures
        dsn_path(scheme + "://"@ + rest) is None,
{
    law_infix(scheme, "://"@, rest);
    law_trim_leaves_the_rest(scheme + "://"@ + rest);
}

/// A DSN that begins with a key and an equals sign names no file, also where white space
/// stands between the two.
pub proof fn law_connection_strings_name_no_file(key: Seq<char>, gap: Seq<char>, rest: Seq<char>)
    requires
        is_ident(key),
        is_blank(gap),
        !is_white((key + gap + seq!['='] + rest).last()),
    ensures
        dsn_path(key + gap + seq!['='] + rest) is None,
{
    let head = key + gap;
    let pairs = head + seq!['='] + rest;
    assert(pairs[0] == key[0]);
    assert forall|i: int| 0 <= i < key.len() implies #[trigger] key[i] != '=' && key[i] != ':'
        && !is_white(key[i]) by {
        assert(is_word(key[i]));
    }
    assert forall|i: int| 0 <= i < head.len() implies #[trigger] head[i] != '=' && head[i] != ':' by {
        if i < key.len() {
            assert(head[i] == key[i]);
        } else {
            assert(head[i] == gap[i - key.len()]);
            assert(is_white(gap[i - key.len()]));
        }
    }
    assert(!is_white(key[0]) && !is_white(key[key.len() - 1]));
    law_trim_leaves_the_rest(pairs);
    assert(pairs[head.len() as int] == '=');
    assert(pairs.take(head.len() as int) =~= head);
    assert(lacks(head, '='));
    lemma_index_is(pairs, '=', head.len() as int);
    assert(trim_of(head) == key) by {
        assert(head.skip(0) =~= head);
        assert(head[0] == key[0]);
        lemma_trim_start_is(head, 0);
        assert(head.skip(key.len() as int) =~= gap);
        assert(head[key.len() - 1] == key[key.len() - 1]);
        lemma_trim_end_is(head, key.len() as int);
        assert(head.take(key.len() as int) =~= key);
    }
    if has_prefix(pairs, "file://"@) {
        lemma_file_url_letters(pairs);
        if head.len() > 4 {
            assert(pairs[4] == head[4]);
        } else {
            assert(pairs[head.len() as int] == '=');
        }
    }
}

proof fn lemma_file_url_letters(s: Seq<char>)
    requires
        has_prefix(s, "file://"@),
    ensures
        s.len() >= 7,
        s[0] == 'f' && s[1] == 'i' && s[2] == 'l' && s[3] == 'e' && s[4] == ':',
{
    reveal_strlit("file://");
    let head = s.subrange(0, 7);
    assert(head == "file://"@);
    assert(head[0] == s[0] && head[1] == s[1] && head[2] == s[2] && head[3] == s[3] && head[4] == s[4]);
}

/// A DSN of white space alone names no file.
pub proof fn law_blank_dsn_names_no_file(blank: Seq<char>)
    requires
        is_blank(blank),
    ensures
        dsn_path(blank) is None,
{
    let p = lemma_trim_start(blank);
    if p < blank.len() {
        assert(is_white(blank[p]));
    }
    assert(trim_of(blank).len() == 0);
}

/// An event that belongs to the phase is answered, and no other is.
pub proof fn law_attach_answers_its_events(
    run: AttachRun,
    event: AttachEvent,
    before: Map<Seq<char>, AttachedForeignCatalog>,
    scans: Map<u32, At5ScanTarget>,
    cursor: u32,
    after: AttachRun,
    action: AttachAction,
    now: Map<Seq<char>, AttachedForeignCatalog>,
    scans_now: Map<u32, At5ScanTarget>,
)
    requires
        attach_next(run, event, before, scans, cursor, after, action, now, scans_now),
    ensures
        action is Ignore <==> !(match (run.phase, event) {
            (AttachPhase::Opening, AttachEvent::Opened(_)) => true,
            (AttachPhase::Listing, AttachEvent::Listed(_)) => true,
            (AttachPhase::Describing(_), AttachEvent::Described(_)) => true,
            (AttachPhase::Registering(_), AttachEvent::Registered(_)) => true,
            (AttachPhase::AttachingMemory, AttachEvent::Executed(_)) => true,
            (AttachPhase::CreatingView(_), AttachEvent::Executed(_)) => true,
            (AttachPhase::Probing, AttachEvent::Probed(_)) => true,
            _ => false,
        }),
        action is Ignore ==> after == run && now == before && scans_now == scans,
{
}

/// An attachment ends well only when every table has its view: behind the question whether
/// writes persist, or, for a read-only one, behind the last view.
pub proof fn law_attach_ends_behind_the_last_view(
    run: AttachRun,
    event: AttachEvent,
    before: Map<Seq<char>, AttachedForeignCatalog>,
    scans: Map<u32, At5ScanTarget>,
    cursor: u32,
    after: AttachRun,
    action: AttachAction,
    now: Map<Seq<char>, AttachedForeignCatalog>,
    scans_now: Map<u32, At5ScanTarget>,
)
    requires
        run.wf(),
        attach_next(run, event, before, scans, cursor, after, action, now, scans_now),
        action matches AttachAction::Finish(Ok(_)),
    ensures
        match run.phase {
            AttachPhase::Probing => event is Probed,
            AttachPhase::CreatingView(i) => run.spec_.read_only && i + 1 == run.shapes@.len() && event
                == (AttachEvent::Executed(Reply::Done)),
            AttachPhase::AttachingMemory => run.spec_.read_only && run.shapes@.len() == 0 && event == (
            AttachEvent::Executed(Reply::Done)),
            AttachPhase::Listing => run.spec_.read_only && after.tables@.len() == 0
                && before.contains_key(run.spec_.alias@),
            _ => false,
        },
        after.phase is Finished,
        now.contains_key(run.spec_.alias@),
{
    assert(run.shapes@.len() == run.shapes.len());
    assert(after.shapes@.len() == after.shapes.len());
    assert(after.tables@.len() == after.tables.len());
}

/// What was found in one step is kept in those that follow: the opened catalog, the listed
/// tables, and the shapes of the tables that were described.
pub proof fn law_attach_keeps_what_it_found(
    run: AttachRun,
    event: AttachEvent,
    before: Map<Seq<char>, AttachedForeignCatalog>,
    scans: Map<u32, At5ScanTarget>,
    cursor: u32,
    after: AttachRun,
    action: AttachAction,
    now: Map<Seq<char>, AttachedForeignCatalog>,
    scans_now: Map<u32, At5ScanTarget>,
)
    requires
        attach_next(run, event, before, scans, cursor, after, action, now, scans_now),
    ensures
        !(run.phase is Opening) ==> after.catalog_handle == run.catalog_handle,
        !(run.phase is Listing) ==> after.tables == run.tables,
        !(run.phase is Describing) ==> after.shapes == run.shapes,
        run.phase is Describing ==> run.shapes@.is_prefix_of(after.shapes@),
        match (run.phase, event) {
            (AttachPhase::Listing, AttachEvent::Listed(Ok(tables))) => after.tables == tables,
            (AttachPhase::Opening, AttachEvent::Opened(Ok(catalog))) => after.catalog_handle == catalog,
            _ => true,
        },
{
    if run.phase is Describing {
        if let AttachEvent::Described(Ok(_)) = event {
            assert(run.shapes@ =~= after.shapes@.take(run.shapes@.len() as int));
        } else {
            assert(run.shapes@ =~= after.shapes@.take(run.shapes@.len() as int));
        }
    }
}

} // verus!
