//! Loading an extension, and handing what it declared to the core.
use crate::assoc::{bound_all, law_last_binding_wins, law_other_bindings_stay, map_of, AssocMap};
use crate::ident::{extension_name_of, sanitize_extension_name};
use crate::manager::{ExtensionManager, SecretKey};
use crate::model::{view_opt, views};
use crate::names::NameMap;
use crate::preopens::wants_sqlite_preopens;
use crate::reg::{
    copy_setting, gathered, CollationReg, ColumnDef, FilesReg, FilterableTableReg, FuncArg,
    IndexReg, LogicalType, NamedCallbackReg, PendingModel, PendingRegistrationsData, ScalarReg,
    SecretReg, SettingReg, StorageReg, TableReg,
};
use crate::resolve::{artifact_of, resolution_note, Resolution};
use crate::scan::{
    DUCKLINK_LOAD_HANDLE, DUCKLINK_PREFIX_SCALAR_HANDLE, DUCKLINK_PREFIX_TABLE_HANDLE,
};
use crate::settings::{grants_network, network_grant_allows};
use crate::sibling::CatalogSnapshot;
use vstd::prelude::*;

verus! {

// ---------------------------------------------------------------------------
// What the host keeps of an extension's declarations
// ---------------------------------------------------------------------------

/// The declarations of an extension that the host serves itself.
#[derive(Debug)]
pub struct Captured {
    pub storages: Vec<StorageReg>,
    pub indexes: Vec<IndexReg>,
    pub files: Vec<FilesReg>,
    pub collations: Vec<CollationReg>,
    pub pragmas: Vec<NamedCallbackReg>,
    pub parsers: Vec<NamedCallbackReg>,
    pub optimizers: Vec<NamedCallbackReg>,
    pub filterable_tables: Vec<FilterableTableReg>,
}

/// Type, extension and callback handle of each storage backend.
pub open spec fn storage_pairs(regs: Seq<StorageReg>) -> Seq<(String, (String, u32))> {
    regs.map_values(|s: StorageReg| (s.ty_name, (s.extension, s.callback_handle)))
}

/// Type and extension of each index type.
pub open spec fn index_pairs(regs: Seq<IndexReg>) -> Seq<(String, String)> {
    regs.map_values(|i: IndexReg| (i.ty_name, i.extension))
}

/// Name, transforming scalar and combinability of each collation.
pub open spec fn collation_pairs(regs: Seq<CollationReg>) -> Seq<(String, (String, bool))> {
    regs.map_values(|c: CollationReg| (c.name, (c.transform_scalar, c.combinable)))
}

/// Name, extension and callback handle of each pragma, parser or optimizer rule.
pub open spec fn callback_pairs(regs: Seq<NamedCallbackReg>) -> Seq<(String, (String, u32))> {
    regs.map_values(|c: NamedCallbackReg| (c.name, (c.extension, c.callback_handle)))
}

/// Key, extension and callback handle of each kind of secret.
pub open spec fn secret_pairs(regs: Seq<SecretReg>) -> Seq<(SecretKey, (String, u32))> {
    regs.map_values(
        |s: SecretReg|
            (
                SecretKey { ty_name: s.ty_name, provider: s.provider },
                (s.extension, s.callback_handle),
            ),
    )
}

/// Name, extension and declaration of each option.
pub open spec fn setting_pairs(regs: Seq<SettingReg>) -> Seq<(String, (String, SettingReg))> {
    regs.map_values(|s: SettingReg| (s.name, (s.extension, s)))
}

fn keep_storages(map: &mut NameMap<(String, u32)>, regs: &Vec<StorageReg>)
    ensures
        final(map).listed() == bound_all(old(map).listed(), storage_pairs(regs@)),
        old(map).wf() ==> final(map).wf(),
{
    let mut pairs: Vec<(String, (String, u32))> = Vec::new();
    let mut i: usize = 0;
    while i < regs.len()
        invariant
            i <= regs@.len(),
            pairs@.len() == i,
            forall|j: int| 0 <= j < i ==> #[trigger] pairs@[j] == storage_pairs(regs@)[j],
        decreases regs@.len() - i,
    {
        let s = &regs[i];
        pairs.push((s.ty_name.clone(), (s.extension.clone(), s.callback_handle)));
        i += 1;
    }
    assert(pairs@ =~= storage_pairs(regs@));
    map.insert_all(pairs);
}

fn keep_indexes(map: &mut NameMap<String>, regs: &Vec<IndexReg>)
    ensures
        final(map).listed() == bound_all(old(map).listed(), index_pairs(regs@)),
        old(map).wf() ==> final(map).wf(),
{
    let mut pairs: Vec<(String, String)> = Vec::new();
    let mut i: usize = 0;
    while i < regs.len()
        invariant
            i <= regs@.len(),
            pairs@.len() == i,
            forall|j: int| 0 <= j < i ==> #[trigger] pairs@[j] == index_pairs(regs@)[j],
        decreases regs@.len() - i,
    {
        let s = &regs[i];
        pairs.push((s.ty_name.clone(), s.extension.clone()));
        i += 1;
    }
    assert(pairs@ =~= index_pairs(regs@));
    map.insert_all(pairs);
}

fn keep_collations(map: &mut NameMap<(String, bool)>, regs: &Vec<CollationReg>)
    ensures
        final(map).listed() == bound_all(old(map).listed(), collation_pairs(regs@)),
        old(map).wf() ==> final(map).wf(),
{
    let mut pairs: Vec<(String, (String, bool))> = Vec::new();
    let mut i: usize = 0;
    while i < regs.len()
        invariant
            i <= regs@.len(),
            pairs@.len() == i,
            forall|j: int| 0 <= j < i ==> #[trigger] pairs@[j] == collation_pairs(regs@)[j],
        decreases regs@.len() - i,
    {
        let s = &regs[i];
        pairs.push((s.name.clone(), (s.transform_scalar.clone(), s.combinable)));
        i += 1;
    }
    assert(pairs@ =~= collation_pairs(regs@));
    map.insert_all(pairs);
}

fn keep_callbacks(map: &mut NameMap<(String, u32)>, regs: &Vec<NamedCallbackReg>)
    ensures
        final(map).listed() == bound_all(old(map).listed(), callback_pairs(regs@)),
        old(map).wf() ==> final(map).wf(),
{
    let mut pairs: Vec<(String, (String, u32))> = Vec::new();
    let mut i: usize = 0;
    while i < regs.len()
        invariant
            i <= regs@.len(),
            pairs@.len() == i,
            forall|j: int| 0 <= j < i ==> #[trigger] pairs@[j] == callback_pairs(regs@)[j],
        decreases regs@.len() - i,
    {
        let s = &regs[i];
        pairs.push((s.name.clone(), (s.extension.clone(), s.callback_handle)));
        i += 1;
    }
    assert(pairs@ =~= callback_pairs(regs@));
    map.insert_all(pairs);
}

fn keep_secrets(map: &mut AssocMap<SecretKey, (String, u32)>, regs: &Vec<SecretReg>)
    ensures
        final(map).listed() == bound_all(old(map).listed(), secret_pairs(regs@)),
        old(map).wf() ==> final(map).wf(),
{
    let mut pairs: Vec<(SecretKey, (String, u32))> = Vec::new();
    let mut i: usize = 0;
    while i < regs.len()
        invariant
            i <= regs@.len(),
            pairs@.len() == i,
            forall|j: int| 0 <= j < i ==> #[trigger] pairs@[j] == secret_pairs(regs@)[j],
        decreases regs@.len() - i,
    {
        let s = &regs[i];
        let provider: Option<String> = match &s.provider {
            Some(p) => Some(p.clone()),
            None => None,
        };
        pairs.push(
            (
                SecretKey { ty_name: s.ty_name.clone(), provider },
                (s.extension.clone(), s.callback_handle),
            ),
        );
        i += 1;
    }
    assert(pairs@ =~= secret_pairs(regs@));
    map.insert_all(pairs);
}

fn keep_settings(map: &mut NameMap<(String, SettingReg)>, regs: &Vec<SettingReg>)
    ensures
        final(map).listed() == bound_all(old(map).listed(), setting_pairs(regs@)),
        old(map).wf() ==> final(map).wf(),
{
    let mut pairs: Vec<(String, (String, SettingReg))> = Vec::new();
    let mut i: usize = 0;
    while i < regs.len()
        invariant
            i <= regs@.len(),
            pairs@.len() == i,
            forall|j: int| 0 <= j < i ==> #[trigger] pairs@[j] == setting_pairs(regs@)[j],
        decreases regs@.len() - i,
    {
        let s = &regs[i];
        pairs.push((s.name.clone(), (s.extension.clone(), copy_setting(s))));
        i += 1;
    }
    assert(pairs@ =~= setting_pairs(regs@));
    map.insert_all(pairs);
}

/// The backends of `after` are those of `before` and of the declarations; a later
/// declaration of a name takes the place of an earlier one. Of the files backends the
/// last one counts.
pub open spec fn captures(before: ExtensionManager, c: Captured, after: ExtensionManager) -> bool {
    &&& after.storage_backends.listed() == bound_all(
        before.storage_backends.listed(),
        storage_pairs(c.storages@),
    )
    &&& after.index_backends.listed() == bound_all(
        before.index_backends.listed(),
        index_pairs(c.indexes@),
    )
    &&& after.files_backend == (if c.files@.len() > 0 {
        Some((c.files@.last().extension, c.files@.last().callback_handle))
    } else {
        before.files_backend
    })
    &&& after.collations.listed() == bound_all(
        before.collations.listed(),
        collation_pairs(c.collations@),
    )
    &&& after.pragmas.listed() == bound_all(before.pragmas.listed(), callback_pairs(c.pragmas@))
    &&& after.parsers.listed() == bound_all(before.parsers.listed(), callback_pairs(c.parsers@))
    &&& after.optimizers.listed() == bound_all(
        before.optimizers.listed(),
        callback_pairs(c.optimizers@),
    )
    &&& after.filterable_tables@ == before.filterable_tables@ + c.filterable_tables@
}

/// `m` with the backends of `other`.
pub open spec fn with_backends(m: ExtensionManager, other: ExtensionManager) -> ExtensionManager {
    ExtensionManager {
        storage_backends: other.storage_backends,
        index_backends: other.index_backends,
        files_backend: other.files_backend,
        collations: other.collations,
        pragmas: other.pragmas,
        parsers: other.parsers,
        optimizers: other.optimizers,
        filterable_tables: other.filterable_tables,
        ..m
    }
}

impl ExtensionManager {
    /// Keeps the declarations that the host serves itself.
    pub fn capture(&mut self, declared: Captured)
        ensures
            captures(*old(self), declared, *final(self)),
            *final(self) == with_backends(*old(self), *final(self)),
            old(self).wf() ==> final(self).wf(),
    {
        let mut declared = declared;
        keep_storages(&mut self.storage_backends, &declared.storages);
        keep_indexes(&mut self.index_backends, &declared.indexes);
        let n: usize = declared.files.len();
        if n > 0 {
            let f = &declared.files[n - 1];
            self.files_backend = Some((f.extension.clone(), f.callback_handle));
        }
        keep_collations(&mut self.collations, &declared.collations);
        keep_callbacks(&mut self.pragmas, &declared.pragmas);
        keep_callbacks(&mut self.parsers, &declared.parsers);
        keep_callbacks(&mut self.optimizers, &declared.optimizers);
        self.filterable_tables.append(&mut declared.filterable_tables);
    }
}

// ---------------------------------------------------------------------------
// Loading
// ---------------------------------------------------------------------------

/// Where the load of an extension stands.
#[derive(Debug)]
pub enum LoadState {
    /// The provider behind a bridge component is being composed.
    Materializing { name: String },
    /// A provider is being chosen; its file lies in `dir`.
    Resolving { name: String, dir: String },
    /// The component file is being looked for.
    Checking { name: String, path: String },
    /// The component is being instantiated and run.
    Loading { name: String },
    Finished,
}

/// A component that was instantiated and has made its declarations.
#[derive(Debug)]
pub struct LoadedComponent {
    /// It can query the database.
    pub imports_query: bool,
    pub captured: Captured,
}

#[derive(Debug)]
pub enum LoadFailure {
    Failed(String),
    Panicked(String),
}

#[derive(Debug)]
pub enum LoadEvent {
    /// The path of the bridge component, or why its provider could not be composed.
    Materialized(Result<String, String>),
    Resolved(Resolution),
    Checked { exists: bool, core_attached: bool },
    Loaded(Result<LoadedComponent, LoadFailure>),
}

/// What to do next.
#[derive(Debug)]
pub enum LoadAction {
    Materialize { name: String },
    Resolve { name: String },
    Check { path: String },
    Load { name: String, path: String, network: bool, sqlite_preopens: bool },
    /// The extension is loaded, it is not, or its load failed.
    Finish(Result<bool, String>),
    /// The event does not belong to the state; nothing is to be done.
    Ignore,
}

/// How a load begins: a loaded extension is not loaded again, one with a bridge
/// component has its provider composed, and for any other a provider is chosen.
pub open spec fn load_begins(
    m: ExtensionManager,
    name: Seq<char>,
    has_bridge: bool,
    dir: Seq<char>,
    state: LoadState,
    action: LoadAction,
) -> bool {
    let made = extension_name_of(name);
    if m.loaded@.contains_key(made) {
        &&& state is Finished
        &&& action == LoadAction::Finish(Ok(true))
    } else if has_bridge {
        &&& state matches LoadState::Materializing { name: n } && n@ == made
        &&& action matches LoadAction::Materialize { name: n } && n@ == made
    } else {
        &&& state matches LoadState::Resolving { name: n, dir: d } && n@ == made && d@ == dir
        &&& action matches LoadAction::Resolve { name: n } && n@ == made
    }
}

/// What a successful load changes.
pub open spec fn takes_in(m: ExtensionManager, name: Seq<char>, x: LoadedComponent, after: ExtensionManager) -> bool {
    &&& after == with_backends(
        ExtensionManager {
            loaded: after.loaded,
            catalog_snapshot: after.catalog_snapshot,
            sibling: after.sibling,
            ..m
        },
        after,
    )
    &&& captures(m, x.captured, after)
    &&& after.loaded@ == m.loaded@.insert(name, ())
    &&& after.catalog_snapshot == (CatalogSnapshot {
        enabled: m.catalog_snapshot.enabled || x.imports_query,
        ..m.catalog_snapshot
    })
    &&& match (m.sibling, after.sibling) {
        (None, None) => true,
        (Some(a), Some(b)) => {
            &&& b.primary_db_path == a.primary_db_path
            &&& views(b.loaded_extensions@) == (if views(a.loaded_extensions@).contains(name) {
                views(a.loaded_extensions@)
            } else {
                views(a.loaded_extensions@).push(name)
            })
        },
        _ => false,
    }
}

/// One step of a load. A refusal along the way finishes it without the extension, an
/// error with the error.
pub open spec fn load_next(
    m: ExtensionManager,
    state: LoadState,
    event: LoadEvent,
    grant: Option<Seq<char>>,
    after_m: ExtensionManager,
    after: LoadState,
    action: LoadAction,
) -> bool {
    match (state, event) {
        (LoadState::Materializing { name }, LoadEvent::Materialized(Ok(path))) => {
            &&& after_m == m
            &&& after == (LoadState::Checking { name, path })
            &&& action == (LoadAction::Check { path })
        },
        (LoadState::Materializing { .. }, LoadEvent::Materialized(Err(_))) => {
            &&& after_m == m
            &&& after is Finished
            &&& action == LoadAction::Finish(Ok(false))
        },
        (LoadState::Resolving { name, dir }, LoadEvent::Resolved(outcome)) => {
            &&& after_m == (ExtensionManager { last_resolutions: after_m.last_resolutions, ..m })
            &&& after_m.last_resolutions@.dom() == m.last_resolutions@.dom().insert(name@)
            &&& forall|k: Seq<char>|
                k != name@ && m.last_resolutions@.contains_key(k)
                    ==> #[trigger] after_m.last_resolutions@[k] == m.last_resolutions@[k]
            &&& after_m.last_resolutions@[name@]@ == resolution_note(outcome)
            &&& match artifact_of(name@, dir@, outcome) {
                Ok(p) => {
                    &&& after matches LoadState::Checking { name: n, path } && n == name && path@ == p
                    &&& action matches LoadAction::Check { path } && path@ == p
                },
                Err(_) => {
                    &&& after is Finished
                    &&& action == LoadAction::Finish(Ok(false))
                },
            }
        },
        (LoadState::Checking { name, path }, LoadEvent::Checked { exists, core_attached }) => {
            &&& after_m == m
            &&& if exists && core_attached {
                &&& after == (LoadState::Loading { name })
                &&& action == (LoadAction::Load {
                    name,
                    path,
                    network: grants_network(grant, name@),
                    sqlite_preopens: name@ == "sqlitewasm"@,
                })
            } else {
                &&& after is Finished
                &&& action == LoadAction::Finish(Ok(false))
            }
        },
        (LoadState::Loading { name }, LoadEvent::Loaded(Ok(x))) => {
            &&& takes_in(m, name@, x, after_m)
            &&& after is Finished
            &&& action == LoadAction::Finish(Ok(true))
        },
        (LoadState::Loading { .. }, LoadEvent::Loaded(Err(failure))) => {
            &&& after_m == m
            &&& after is Finished
            &&& match failure {
                LoadFailure::Failed(text) => action == LoadAction::Finish(Err(text)),
                LoadFailure::Panicked(text) => action matches LoadAction::Finish(Err(t)) && t@
                    == "extension loader thread panicked: "@ + text@,
            }
        },
        _ => after_m == m && after == state && action is Ignore,
    }
}

impl ExtensionManager {
    /// Begins the load of an extension. `has_bridge` tells whether a bridge component
    /// is configured for it, `dir` is the directory of extension components.
    pub fn ensure_extension_loaded(&self, name: &str, has_bridge: bool, dir: &str) -> (r: (
        LoadState,
        LoadAction,
    ))
        ensures
            load_begins(*self, name@, has_bridge, dir@, r.0, r.1),
    {
        let made = sanitize_extension_name(name);
        if self.loaded.contains(made.as_str()) {
            (LoadState::Finished, LoadAction::Finish(Ok(true)))
        } else if has_bridge {
            (LoadState::Materializing { name: made.clone() }, LoadAction::Materialize { name: made })
        } else {
            (
                LoadState::Resolving { name: made.clone(), dir: dir.to_owned() },
                LoadAction::Resolve { name: made },
            )
        }
    }

    fn take_in(&mut self, name: String, x: LoadedComponent)
        ensures
            takes_in(*old(self), name@, x, *final(self)),
            old(self).wf() ==> final(self).wf(),
    {
        if x.imports_query {
            self.catalog_snapshot.enabled = true;
        }
        if let Some(sibling) = &mut self.sibling {
            sibling.record_extension_loaded(name.as_str());
        }
        self.loaded.insert(name, ());
        self.capture(x.captured);
    }

    /// Takes one step of a load. `grant` is the setting that grants network access.
    pub fn load_step(&mut self, state: LoadState, event: LoadEvent, grant: Option<&str>) -> (r: (
        LoadState,
        LoadAction,
    ))
        ensures
            load_next(
                *old(self),
                state,
                event,
                match grant {
                    Some(g) => Some(g@),
                    None => None,
                },
                *final(self),
                r.0,
                r.1,
            ),
            old(self).wf() ==> final(self).wf(),
    {
        match (state, event) {
            (LoadState::Materializing { name }, LoadEvent::Materialized(Ok(path))) => (
                LoadState::Checking { name, path: path.clone() },
                LoadAction::Check { path },
            ),
            (LoadState::Materializing { .. }, LoadEvent::Materialized(Err(_))) => (
                LoadState::Finished,
                LoadAction::Finish(Ok(false)),
            ),
            (LoadState::Resolving { name, dir }, LoadEvent::Resolved(outcome)) => {
                match self.resolve_provider_artifact(name.as_str(), dir.as_str(), &outcome) {
                    Ok(path) => (
                        LoadState::Checking { name, path: path.clone() },
                        LoadAction::Check { path },
                    ),
                    Err(_) => (LoadState::Finished, LoadAction::Finish(Ok(false))),
                }
            },
            (LoadState::Checking { name, path }, LoadEvent::Checked { exists, core_attached }) => {
                if exists && core_attached {
                    let network: bool = network_grant_allows(grant, name.as_str());
                    let sqlite_preopens: bool = wants_sqlite_preopens(name.as_str());
                    (
                        LoadState::Loading { name: name.clone() },
                        LoadAction::Load { name, path, network, sqlite_preopens },
                    )
                } else {
                    (LoadState::Finished, LoadAction::Finish(Ok(false)))
                }
            },
            (LoadState::Loading { name }, LoadEvent::Loaded(Ok(x))) => {
                self.take_in(name, x);
                (LoadState::Finished, LoadAction::Finish(Ok(true)))
            },
            (LoadState::Loading { .. }, LoadEvent::Loaded(Err(failure))) => {
                let text = match failure {
                    LoadFailure::Failed(text) => text,
                    LoadFailure::Panicked(text) => {
                        let mut m = "extension loader thread panicked: ".to_owned();
                        m.append(text.as_str());
                        m
                    },
                };
                (LoadState::Finished, LoadAction::Finish(Err(text)))
            },
            (state, _) => (state, LoadAction::Ignore),
        }
    }
}

// ---------------------------------------------------------------------------
// Handing the declarations to the core
// ---------------------------------------------------------------------------

pub open spec fn is_text_parameter(a: FuncArg, name: Seq<char>) -> bool {
    view_opt(a.name) == Some(name) && a.logical == LogicalType::Text
}

pub open spec fn is_column(c: ColumnDef, name: Seq<char>, ty: LogicalType) -> bool {
    c.name@ == name && c.logical == ty
}

/// The host's own `ducklink_load(name)`.
pub open spec fn is_load_function(t: TableReg) -> bool {
    &&& t.extension@ == "ducklink"@
    &&& t.name@ == "ducklink_load"@
    &&& t.arguments@.len() == 1
    &&& is_text_parameter(t.arguments@[0], "name"@)
    &&& t.columns@.len() == 5
    &&& is_column(t.columns@[0], "name"@, LogicalType::Text)
    &&& is_column(t.columns@[1], "path"@, LogicalType::Text)
    &&& is_column(t.columns@[2], "scalars"@, LogicalType::Int64)
    &&& is_column(t.columns@[3], "tables"@, LogicalType::Int64)
    &&& is_column(t.columns@[4], "aggregates"@, LogicalType::Int64)
    &&& t.callback_handle == DUCKLINK_LOAD_HANDLE
    &&& t.options is None
}

pub open spec fn are_prefix_parameters(args: Seq<FuncArg>) -> bool {
    &&& args.len() == 2
    &&& is_text_parameter(args[0], "alias"@)
    &&& is_text_parameter(args[1], "namespace"@)
}

/// The host's own `ducklink_prefix(alias, namespace)` as a table function.
pub open spec fn is_prefix_table(t: TableReg) -> bool {
    &&& t.extension@ == "ducklink"@
    &&& t.name@ == "ducklink_prefix"@
    &&& are_prefix_parameters(t.arguments@)
    &&& t.columns@.len() == 3
    &&& is_column(t.columns@[0], "alias"@, LogicalType::Text)
    &&& is_column(t.columns@[1], "namespace"@, LogicalType::Text)
    &&& is_column(t.columns@[2], "macros"@, LogicalType::Int64)
    &&& t.callback_handle == DUCKLINK_PREFIX_TABLE_HANDLE
    &&& t.options is None
}

/// The host's own `ducklink_prefix(alias, namespace)` as a scalar function.
pub open spec fn is_prefix_scalar(f: ScalarReg) -> bool {
    &&& f.extension@ == "ducklink"@
    &&& f.name@ == "ducklink_prefix"@
    &&& are_prefix_parameters(f.arguments@)
    &&& f.returns == LogicalType::Text
    &&& f.callback_handle == DUCKLINK_PREFIX_SCALAR_HANDLE
    &&& f.options is None
}

/// `r` is `base` with `ducklink_load` and `ducklink_prefix` behind it, each where it
/// is wanted.
pub open spec fn adds_host_functions(base: PendingModel, load: bool, prefix: bool, r: PendingModel) -> bool {
    let load_count: int = if load {
        1
    } else {
        0
    };
    let prefix_count: int = if prefix {
        1
    } else {
        0
    };
    &&& r == (PendingModel { scalars: r.scalars, tables: r.tables, ..base })
    &&& base.tables.is_prefix_of(r.tables)
    &&& r.tables.len() == base.tables.len() + load_count + prefix_count
    &&& load ==> is_load_function(r.tables[base.tables.len() as int])
    &&& prefix ==> is_prefix_table(r.tables.last())
    &&& base.scalars.is_prefix_of(r.scalars)
    &&& r.scalars.len() == base.scalars.len() + prefix_count
    &&& prefix ==> is_prefix_scalar(r.scalars.last())
}

/// What is handed to the core: what was put aside, then the batches of the
/// extensions, then the host's own functions if the core does not have them yet. The
/// storage backends, secrets and options among it are noted.
pub open spec fn drains_to(
    m: ExtensionManager,
    batches: Seq<PendingRegistrationsData>,
    after: ExtensionManager,
    r: PendingModel,
) -> bool {
    let base = gathered(m.deferred_registrations@, batches);
    &&& adds_host_functions(base, !m.injected_ducklink_load, !m.injected_ducklink_prefix, r)
    &&& after == (ExtensionManager {
        storage_backends: after.storage_backends,
        secret_backends: after.secret_backends,
        settings_registry: after.settings_registry,
        deferred_registrations: after.deferred_registrations,
        injected_ducklink_load: true,
        injected_ducklink_prefix: true,
        ..m
    })
    &&& after.deferred_registrations@ == PendingModel::empty()
    &&& after.storage_backends.listed() == bound_all(
        m.storage_backends.listed(),
        storage_pairs(base.storages),
    )
    &&& after.secret_backends.listed() == bound_all(
        m.secret_backends.listed(),
        secret_pairs(base.secrets),
    )
    &&& after.settings_registry.listed() == bound_all(
        m.settings_registry.listed(),
        setting_pairs(base.settings),
    )
}

fn text_parameter(name: &str) -> (r: FuncArg)
    ensures
        is_text_parameter(r, name@),
{
    FuncArg { name: Some(name.to_owned()), logical: LogicalType::Text }
}

fn column(name: &str, logical: LogicalType) -> (r: ColumnDef)
    ensures
        is_column(r, name@, logical),
{
    ColumnDef { name: name.to_owned(), logical }
}

fn load_function() -> (r: TableReg)
    ensures
        is_load_function(r),
{
    TableReg {
        extension: "ducklink".to_owned(),
        name: "ducklink_load".to_owned(),
        arguments: vec![text_parameter("name")],
        columns: vec![
            column("name", LogicalType::Text),
            column("path", LogicalType::Text),
            column("scalars", LogicalType::Int64),
            column("tables", LogicalType::Int64),
            column("aggregates", LogicalType::Int64),
        ],
        callback_handle: DUCKLINK_LOAD_HANDLE,
        options: None,
    }
}

fn prefix_table() -> (r: TableReg)
    ensures
        is_prefix_table(r),
{
    TableReg {
        extension: "ducklink".to_owned(),
        name: "ducklink_prefix".to_owned(),
        arguments: vec![text_parameter("alias"), text_parameter("namespace")],
        columns: vec![
            column("alias", LogicalType::Text),
            column("namespace", LogicalType::Text),
            column("macros", LogicalType::Int64),
        ],
        callback_handle: DUCKLINK_PREFIX_TABLE_HANDLE,
        options: None,
    }
}

fn prefix_scalar() -> (r: ScalarReg)
    ensures
        is_prefix_scalar(r),
{
    ScalarReg {
        extension: "ducklink".to_owned(),
        name: "ducklink_prefix".to_owned(),
        arguments: vec![text_parameter("alias"), text_parameter("namespace")],
        returns: LogicalType::Text,
        callback_handle: DUCKLINK_PREFIX_SCALAR_HANDLE,
        options: None,
    }
}

impl ExtensionManager {
    /// Gathers what is to be handed to the core. `batches` is what the loaded
    /// extensions have declared since the last time.
    pub fn drain_pending_registrations(&mut self, batches: Vec<PendingRegistrationsData>) -> (r:
        PendingRegistrationsData)
        ensures
            drains_to(*old(self), batches@, *final(self), r@),
            old(self).wf() ==> final(self).wf(),
    {
        let mut all = PendingRegistrationsData::new();
        std::mem::swap(&mut all, &mut self.deferred_registrations);
        let ghost first = all@;
        let ghost given = batches@;
        for batch in it: batches
            invariant
                it.seq() == given,
                all@ == gathered(first, given.take(it.index())),
        {
            assert(given.take(it.index() + 1).drop_last() =~= given.take(it.index()));
            all.append(batch);
        }
        assert(given.take(given.len() as int) =~= given);
        keep_storages(&mut self.storage_backends, &all.storages);
        keep_secrets(&mut self.secret_backends, &all.secrets);
        keep_settings(&mut self.settings_registry, &all.settings);
        if !self.injected_ducklink_load {
            self.injected_ducklink_load = true;
            all.tables.push(load_function());
        }
        if !self.injected_ducklink_prefix {
            self.injected_ducklink_prefix = true;
            all.tables.push(prefix_table());
            all.scalars.push(prefix_scalar());
        }
        all
    }
}

// ---------------------------------------------------------------------------
// Laws
// ---------------------------------------------------------------------------

/// A loaded extension stays loaded: a later request for it, under any text that makes
/// the same name, finishes at once and well.
pub proof fn law_loading_twice_loads_once(
    m: ExtensionManager,
    name: String,
    x: LoadedComponent,
    grant: Option<Seq<char>>,
    after_m: ExtensionManager,
    after: LoadState,
    action: LoadAction,
    again: Seq<char>,
    has_bridge: bool,
    dir: Seq<char>,
    state: LoadState,
    first: LoadAction,
)
    requires
        load_next(
            m,
            LoadState::Loading { name },
            LoadEvent::Loaded(Ok(x)),
            grant,
            after_m,
            after,
            action,
        ),
        extension_name_of(again) == name@,
        load_begins(after_m, again, has_bridge, dir, state, first),
    ensures
        first == LoadAction::Finish(Ok(true)),
{
}

/// A load that does not succeed changes nothing but the note of why the provider was
/// chosen: no extension is loaded by it, and no backend is registered.
pub proof fn law_failed_load_changes_no_backend(
    m: ExtensionManager,
    state: LoadState,
    event: LoadEvent,
    grant: Option<Seq<char>>,
    after_m: ExtensionManager,
    after: LoadState,
    action: LoadAction,
)
    requires
        load_next(m, state, event, grant, after_m, after, action),
        action != LoadAction::Finish(Ok(true)),
    ensures
        after_m == (ExtensionManager { last_resolutions: after_m.last_resolutions, ..m }),
{
}

/// An extension is run with network access only where the setting grants it.
pub proof fn law_network_needs_a_grant(
    m: ExtensionManager,
    state: LoadState,
    event: LoadEvent,
    grant: Option<Seq<char>>,
    after_m: ExtensionManager,
    after: LoadState,
    action: LoadAction,
)
    requires
        load_next(m, state, event, grant, after_m, after, action),
    ensures
        action matches LoadAction::Load { name, network, .. } ==> network == grants_network(
            grant,
            name@,
        ),
{
}

/// The host's own functions reach the core once, and what was put aside is handed out
/// once: after one hand-over, the next holds just what the extensions have declared
/// since.
pub proof fn law_declarations_are_handed_over_once(
    m: ExtensionManager,
    batches: Seq<PendingRegistrationsData>,
    m1: ExtensionManager,
    r1: PendingModel,
    later: Seq<PendingRegistrationsData>,
    m2: ExtensionManager,
    r2: PendingModel,
)
    requires
        drains_to(m, batches, m1, r1),
        drains_to(m1, later, m2, r2),
    ensures
        r2 == gathered(PendingModel::empty(), later),
{
    let base = gathered(PendingModel::empty(), later);
    assert(r2.tables =~= base.tables);
    assert(r2.scalars =~= base.scalars);
}

/// Nothing that was declared is lost or reordered on the way to the core.
pub proof fn law_declarations_keep_their_order(
    m: ExtensionManager,
    batches: Seq<PendingRegistrationsData>,
    after: ExtensionManager,
    r: PendingModel,
)
    requires
        drains_to(m, batches, after, r),
    ensures
        ({
            let base = gathered(m.deferred_registrations@, batches);
            &&& base.scalars.is_prefix_of(r.scalars)
            &&& base.tables.is_prefix_of(r.tables)
            &&& r.aggregates == base.aggregates
            &&& r.macros == base.macros
            &&& r.replacement_scans == base.replacement_scans
            &&& r.logical_types == base.logical_types
            &&& r.casts == base.casts
            &&& r.storages == base.storages
            &&& r.secrets == base.secrets
            &&& r.settings == base.settings
        }),
{
}

/// A storage backend that an extension declares serves its type from then on, under the
/// extension and with the callback that were declared; of two for one type, the later one.
/// The types that no declaration names keep their backends.
pub proof fn law_declared_storage_serves_its_type(
    before: ExtensionManager,
    c: Captured,
    after: ExtensionManager,
    i: int,
    other: Seq<char>,
)
    requires
        captures(before, c, after),
        0 <= i < c.storages@.len(),
        forall|j: int| i < j < c.storages@.len() ==> (#[trigger] c.storages@[j]).ty_name@
            != c.storages@[i].ty_name@,
        forall|j: int| 0 <= j < c.storages@.len() ==> (#[trigger] c.storages@[j]).ty_name@ != other,
    ensures
        ({
            let now = map_of(after.storage_backends.listed());
            let was = map_of(before.storage_backends.listed());
            &&& now.contains_key(c.storages@[i].ty_name@)
            &&& now[c.storages@[i].ty_name@].0 == c.storages@[i].extension
            &&& now[c.storages@[i].ty_name@].1 == c.storages@[i].callback_handle
            &&& now.contains_key(other) == was.contains_key(other)
            &&& was.contains_key(other) ==> now[other] == was[other]
        }),
{
    let pairs = storage_pairs(c.storages@);
    assert forall|j: int| i < j < pairs.len() implies (#[trigger] pairs[j]).0@ != pairs[i].0@ by {
        assert(c.storages@[j].ty_name@ != c.storages@[i].ty_name@);
    }
    assert forall|j: int| 0 <= j < pairs.len() implies (#[trigger] pairs[j]).0@ != other by {
        assert(c.storages@[j].ty_name@ != other);
    }
    law_last_binding_wins(before.storage_backends.listed(), pairs, i);
    law_other_bindings_stay(before.storage_backends.listed(), pairs, other);
}

/// A declared pragma, parser, optimizer, collation or index type is found under its name,
/// with what was declared for it. The last declared file system counts, and filterable
/// tables are added behind those that are there.
pub proof fn law_declared_names_are_found(
    before: ExtensionManager,
    c: Captured,
    after: ExtensionManager,
    i: int,
)
    requires
        captures(before, c, after),
        i >= 0,
    ensures
        i < c.pragmas@.len() && (forall|j: int| i < j < c.pragmas@.len() ==> (#[trigger] c.pragmas@[j]).name@
            != c.pragmas@[i].name@) ==> map_of(after.pragmas.listed()).contains_pair(
            c.pragmas@[i].name@,
            (c.pragmas@[i].extension, c.pragmas@[i].callback_handle),
        ),
        i < c.parsers@.len() && (forall|j: int| i < j < c.parsers@.len() ==> (#[trigger] c.parsers@[j]).name@
            != c.parsers@[i].name@) ==> map_of(after.parsers.listed()).contains_pair(
            c.parsers@[i].name@,
            (c.parsers@[i].extension, c.parsers@[i].callback_handle),
        ),
        i < c.optimizers@.len() && (forall|j: int|
            i < j < c.optimizers@.len() ==> (#[trigger] c.optimizers@[j]).name@
                != c.optimizers@[i].name@) ==> map_of(after.optimizers.listed()).contains_pair(
            c.optimizers@[i].name@,
            (c.optimizers@[i].extension, c.optimizers@[i].callback_handle),
        ),
        i < c.collations@.len() && (forall|j: int|
            i < j < c.collations@.len() ==> (#[trigger] c.collations@[j]).name@
                != c.collations@[i].name@) ==> map_of(after.collations.listed()).contains_pair(
            c.collations@[i].name@,
            (c.collations@[i].transform_scalar, c.collations@[i].combinable),
        ),
        i < c.indexes@.len() && (forall|j: int|
            i < j < c.indexes@.len() ==> (#[trigger] c.indexes@[j]).ty_name@ != c.indexes@[i].ty_name@)
            ==> map_of(after.index_backends.listed()).contains_pair(
            c.indexes@[i].ty_name@,
            c.indexes@[i].extension,
        ),
        c.files@.len() > 0 ==> after.files_backend == Some(
            (
                c.files@[c.files@.len() - 1].extension,
                c.files@[c.files@.len() - 1].callback_handle,
            ),
        ),
        c.files@.len() == 0 ==> after.files_backend == before.files_backend,
        after.filterable_tables@ == before.filterable_tables@ + c.filterable_tables@,
{
    if i < c.pragmas@.len() && (forall|j: int| i < j < c.pragmas@.len() ==> (#[trigger] c.pragmas@[j]).name@
        != c.pragmas@[i].name@) {
        lemma_callback_found(before.pragmas.listed(), c.pragmas@, i);
    }
    if i < c.parsers@.len() && (forall|j: int| i < j < c.parsers@.len() ==> (#[trigger] c.parsers@[j]).name@
        != c.parsers@[i].name@) {
        lemma_callback_found(before.parsers.listed(), c.parsers@, i);
    }
    if i < c.optimizers@.len() && (forall|j: int|
        i < j < c.optimizers@.len() ==> (#[trigger] c.optimizers@[j]).name@ != c.optimizers@[i].name@) {
        lemma_callback_found(before.optimizers.listed(), c.optimizers@, i);
    }
    if i < c.collations@.len() && (forall|j: int|
        i < j < c.collations@.len() ==> (#[trigger] c.collations@[j]).name@ != c.collations@[i].name@) {
        let pairs = collation_pairs(c.collations@);
        assert forall|j: int| i < j < pairs.len() implies (#[trigger] pairs[j]).0@ != pairs[i].0@ by {
            assert(c.collations@[j].name@ != c.collations@[i].name@);
        }
        law_last_binding_wins(before.collations.listed(), pairs, i);
    }
    if i < c.indexes@.len() && (forall|j: int|
        i < j < c.indexes@.len() ==> (#[trigger] c.indexes@[j]).ty_name@ != c.indexes@[i].ty_name@) {
        let pairs = index_pairs(c.indexes@);
        assert forall|j: int| i < j < pairs.len() implies (#[trigger] pairs[j]).0@ != pairs[i].0@ by {
            assert(c.indexes@[j].ty_name@ != c.indexes@[i].ty_name@);
        }
        law_last_binding_wins(before.index_backends.listed(), pairs, i);
    }
}

proof fn lemma_callback_found(
    entries: Seq<(String, (String, u32))>,
    regs: Seq<NamedCallbackReg>,
    i: int,
)
    requires
        0 <= i < regs.len(),
        forall|j: int| i < j < regs.len() ==> (#[trigger] regs[j]).name@ != regs[i].name@,
    ensures
        map_of(bound_all(entries, callback_pairs(regs))).contains_pair(
            regs[i].name@,
            (regs[i].extension, regs[i].callback_handle),
        ),
{
    let pairs = callback_pairs(regs);
    assert forall|j: int| i < j < pairs.len() implies (#[trigger] pairs[j]).0@ != pairs[i].0@ by {
        assert(regs[j].name@ != regs[i].name@);
    }
    law_last_binding_wins(entries, pairs, i);
}

/// A component is loaded from the file that was looked for, under the name that was asked
/// for, and only where the file is there and a core is attached. The one component for
/// SQLite gets its own preopens.
pub proof fn law_load_follows_the_check(
    m: ExtensionManager,
    state: LoadState,
    event: LoadEvent,
    grant: Option<Seq<char>>,
    after_m: ExtensionManager,
    after: LoadState,
    action: LoadAction,
)
    requires
        load_next(m, state, event, grant, after_m, after, action),
    ensures
        match (state, event) {
            (LoadState::Checking { name, path }, LoadEvent::Checked { exists, core_attached }) => {
                match action {
                    LoadAction::Load { name: n, path: p, sqlite_preopens, .. } => exists
                        && core_attached && n == name && p == path && (sqlite_preopens <==> name@
                        == "sqlitewasm"@) && after == (LoadState::Loading { name }),
                    LoadAction::Finish(Ok(loaded)) => !loaded && !(exists && core_attached),
                    _ => false,
                }
            },
            (LoadState::Materializing { name }, LoadEvent::Materialized(Ok(path))) => action == (
            LoadAction::Check { path }) && after == (LoadState::Checking { name, path }),
            (LoadState::Materializing { .. }, LoadEvent::Materialized(Err(_))) => action
                == LoadAction::Finish(Ok(false)),
            (LoadState::Loading { .. }, LoadEvent::Loaded(Ok(_))) => action == LoadAction::Finish(
                Ok(true),
            ),
            (LoadState::Loading { .. }, LoadEvent::Loaded(Err(LoadFailure::Failed(text)))) => action
                == LoadAction::Finish(Err(text)),
            (LoadState::Loading { .. }, LoadEvent::Loaded(Err(LoadFailure::Panicked(text)))) => action
                matches LoadAction::Finish(Err(t)) && t@ == "extension loader thread panicked: "@
                + text@,
            (LoadState::Resolving { .. }, LoadEvent::Resolved(_)) => action is Check || action
                == LoadAction::Finish(Ok(false)),
            _ => action is Ignore && after == state && after_m == m,
        },
{
}

/// Loading begins under the name that can be loaded. What is loaded is not loaded again;
/// otherwise the bridge is composed where there is one, and a provider is chosen where
/// there is none.
pub proof fn law_load_begins_once(
    m: ExtensionManager,
    name: Seq<char>,
    has_bridge: bool,
    dir: Seq<char>,
    state: LoadState,
    action: LoadAction,
)
    requires
        load_begins(m, name, has_bridge, dir, state, action),
    ensures
        match action {
            LoadAction::Finish(Ok(loaded)) => loaded && m.loaded@.contains_key(extension_name_of(name)),
            LoadAction::Materialize { name: n } => has_bridge && n@ == extension_name_of(name)
                && !m.loaded@.contains_key(n@) && (state matches LoadState::Materializing { name: s }
                && s@ == n@),
            LoadAction::Resolve { name: n } => !has_bridge && n@ == extension_name_of(name)
                && !m.loaded@.contains_key(n@) && (state matches LoadState::Resolving { name: s, dir: d }
                && s@ == n@ && d@ == dir),
            _ => false,
        },
{
}

/// The first hand-over carries the host's own functions behind the declared ones: a table
/// function ducklink_load(name), a table function and a scalar function
/// ducklink_prefix(alias, namespace), each answered by the host's own handle.
pub proof fn law_host_functions_are_declared(
    m: ExtensionManager,
    batches: Seq<PendingRegistrationsData>,
    after: ExtensionManager,
    r: PendingModel,
)
    requires
        drains_to(m, batches, after, r),
    ensures
        after.injected_ducklink_load,
        after.injected_ducklink_prefix,
        !m.injected_ducklink_load ==> {
            let t = r.tables[gathered(m.deferred_registrations@, batches).tables.len() as int];
            &&& t.extension@ == "ducklink"@
            &&& t.name@ == "ducklink_load"@
            &&& t.callback_handle == 0xFFFF_FFFD
            &&& t.arguments@.len() == 1
            &&& t.arguments@[0].name matches Some(n) && n@ == "name"@
            &&& t.arguments@[0].logical == LogicalType::Text
            &&& t.columns@.len() == 5
            &&& t.columns@[0].name@ == "name"@ && t.columns@[0].logical == LogicalType::Text
            &&& t.columns@[1].name@ == "path"@ && t.columns@[1].logical == LogicalType::Text
            &&& t.columns@[2].name@ == "scalars"@ && t.columns@[2].logical == LogicalType::Int64
            &&& t.columns@[3].name@ == "tables"@ && t.columns@[3].logical == LogicalType::Int64
            &&& t.columns@[4].name@ == "aggregates"@ && t.columns@[4].logical == LogicalType::Int64
        },
        !m.injected_ducklink_prefix ==> {
            let t = r.tables.last();
            let f = r.scalars.last();
            &&& t.extension@ == "ducklink"@
            &&& t.name@ == "ducklink_prefix"@
            &&& t.callback_handle == 0xFFFF_FFFC
            &&& t.arguments@.len() == 2
            &&& t.arguments@[0].name matches Some(a) && a@ == "alias"@
            &&& t.arguments@[1].name matches Some(n) && n@ == "namespace"@
            &&& t.columns@.len() == 3
            &&& t.columns@[0].name@ == "alias"@ && t.columns@[0].logical == LogicalType::Text
            &&& t.columns@[1].name@ == "namespace"@ && t.columns@[1].logical == LogicalType::Text
            &&& t.columns@[2].name@ == "macros"@ && t.columns@[2].logical == LogicalType::Int64
            &&& f.extension@ == "ducklink"@
            &&& f.name@ == "ducklink_prefix"@
            &&& f.callback_handle == 0xFFFF_FFFB
            &&& f.returns == LogicalType::Text
            &&& f.arguments@.len() == 2
            &&& f.arguments@[0].name matches Some(a) && a@ == "alias"@
            &&& f.arguments@[0].logical == LogicalType::Text
            &&& f.arguments@[1].name matches Some(n) && n@ == "namespace"@
            &&& f.arguments@[1].logical == LogicalType::Text
        },
{
}

/// A loaded extension is noted under its name, and so are those that were loaded before. The
/// catalog snapshot is kept from the first extension on that can query. The second core
/// learns of the extension once, behind the others.
pub proof fn law_loaded_extension_is_noted(
    m: ExtensionManager,
    name: String,
    x: LoadedComponent,
    grant: Option<Seq<char>>,
    after_m: ExtensionManager,
    after: LoadState,
    action: LoadAction,
    other: Seq<char>,
)
    requires
        load_next(
            m,
            LoadState::Loading { name },
            LoadEvent::Loaded(Ok(x)),
            grant,
            after_m,
            after,
            action,
        ),
    ensures
        after_m.loaded@.contains_key(name@),
        other != name@ ==> after_m.loaded@.contains_key(other) == m.loaded@.contains_key(other),
        after_m.catalog_snapshot.enabled <==> m.catalog_snapshot.enabled || x.imports_query,
        after_m.catalog_snapshot@ == m.catalog_snapshot@,
        captures(m, x.captured, after_m),
        match (m.sibling, after_m.sibling) {
            (None, None) => true,
            (Some(a), Some(b)) => {
                let was = views(a.loaded_extensions@);
                let now = views(b.loaded_extensions@);
                &&& b.primary_db_path == a.primary_db_path
                &&& was.is_prefix_of(now)
                &&& now.contains(name@)
                &&& was.contains(name@) ==> now == was
                &&& !was.contains(name@) ==> now.len() == was.len() + 1
            },
            _ => false,
        },
        after_m.scans == m.scans,
        after_m.resolver_policy == m.resolver_policy,
        after_m.deferred_registrations == m.deferred_registrations,
        after_m.deferred_prefix_declarations == m.deferred_prefix_declarations,
        after_m.deferred_drain_names == m.deferred_drain_names,
        after_m.secret_backends == m.secret_backends,
        after_m.settings_registry == m.settings_registry,
{
    if m.sibling is Some {
        let was = views(m.sibling->0.loaded_extensions@);
        let now = views(after_m.sibling->0.loaded_extensions@);
        if !was.contains(name@) {
            assert(now[was.len() as int] == name@);
            assert(was =~= now.take(was.len() as int));
        }
    }
}

/// A secret type of a provider and an option are found with what was declared for them.
pub proof fn law_declared_secrets_and_options_are_found(
    m: ExtensionManager,
    batches: Seq<PendingRegistrationsData>,
    after: ExtensionManager,
    r: PendingModel,
    i: int,
)
    requires
        drains_to(m, batches, after, r),
        i >= 0,
    ensures
        i < r.secrets.len() && (forall|j: int|
            i < j < r.secrets.len() ==> (#[trigger] r.secrets[j]).ty_name@ != r.secrets[i].ty_name@)
            ==> map_of(after.secret_backends.listed()).contains_pair(
            (r.secrets[i].ty_name@, view_opt(r.secrets[i].provider)),
            (r.secrets[i].extension, r.secrets[i].callback_handle),
        ),
        i < r.settings.len() && (forall|j: int|
            i < j < r.settings.len() ==> (#[trigger] r.settings[j]).name@ != r.settings[i].name@)
            ==> map_of(after.settings_registry.listed()).contains_pair(
            r.settings[i].name@,
            (r.settings[i].extension, r.settings[i]),
        ),
        i < r.storages.len() && (forall|j: int|
            i < j < r.storages.len() ==> (#[trigger] r.storages[j]).ty_name@ != r.storages[i].ty_name@)
            ==> map_of(after.storage_backends.listed()).contains_pair(
            r.storages[i].ty_name@,
            (r.storages[i].extension, r.storages[i].callback_handle),
        ),
{
    if i < r.secrets.len() && (forall|j: int|
        i < j < r.secrets.len() ==> (#[trigger] r.secrets[j]).ty_name@ != r.secrets[i].ty_name@) {
        let pairs = secret_pairs(r.secrets);
        assert forall|j: int| i < j < pairs.len() implies (#[trigger] pairs[j]).0@ != pairs[i].0@ by {
            assert(r.secrets[j].ty_name@ != r.secrets[i].ty_name@);
        }
        law_last_binding_wins(m.secret_backends.listed(), pairs, i);
    }
    if i < r.settings.len() && (forall|j: int|
        i < j < r.settings.len() ==> (#[trigger] r.settings[j]).name@ != r.settings[i].name@) {
        let pairs = setting_pairs(r.settings);
        assert forall|j: int| i < j < pairs.len() implies (#[trigger] pairs[j]).0@ != pairs[i].0@ by {
            assert(r.settings[j].name@ != r.settings[i].name@);
        }
        law_last_binding_wins(m.settings_registry.listed(), pairs, i);
    }
    if i < r.storages.len() && (forall|j: int|
        i < j < r.storages.len() ==> (#[trigger] r.storages[j]).ty_name@ != r.storages[i].ty_name@) {
        let pairs = storage_pairs(r.storages);
        assert forall|j: int| i < j < pairs.len() implies (#[trigger] pairs[j]).0@ != pairs[i].0@ by {
            assert(r.storages[j].ty_name@ != r.storages[i].ty_name@);
        }
        law_last_binding_wins(m.storage_backends.listed(), pairs, i);
    }
}

/// The artifact that is looked for is the one of the chosen provider, and why it was chosen is
/// kept under the extension's name.
pub proof fn law_chosen_artifact_is_looked_for(
    m: ExtensionManager,
    name: String,
    dir: String,
    outcome: Resolution,
    grant: Option<Seq<char>>,
    after_m: ExtensionManager,
    after: LoadState,
    action: LoadAction,
)
    requires
        load_next(
            m,
            LoadState::Resolving { name, dir },
            LoadEvent::Resolved(outcome),
            grant,
            after_m,
            after,
            action,
        ),
    ensures
        after_m.last_resolutions@.contains_key(name@),
        after_m.last_resolutions@[name@]@ == resolution_note(outcome),
        match (outcome, action) {
            (Resolution::Failed { .. }, LoadAction::Finish(Ok(loaded))) => !loaded,
            (Resolution::Failed { .. }, _) => false,
            (_, LoadAction::Check { path }) => artifact_of(name@, dir@, outcome) == Ok::<
                Seq<char>,
                Seq<char>,
            >(path@) && (after matches LoadState::Checking { name: n, path: p } && n == name && p@
                == path@),
            _ => false,
        },
{
}

} // verus!
