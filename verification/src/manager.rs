//! What the host knows of the loaded extensions: which of them backs what, where a
//! callback goes, and what is put off until the core is idle.
use crate::assoc::{AssocMap, Key};
use crate::extension_types::Duckerror;
use crate::ident::{extension_name_of, sanitize_extension_name};
use crate::model::{view_opt, ErrorModel};
use crate::names::NameMap;
use crate::plan_shape::{flatten_plan_json, nodes_view, plan_nodes, FlatNode};
use crate::json::json_parsed;
use crate::reg::{
    copy_setting, FilterableTableReg, PendingModel, PendingRegistrationsData, SettingReg,
};
use crate::scan::{At5ScanTarget, ScanRegistry, AT5_ATTACH_SCAN_HANDLE_MIN};
use crate::settings::ResolvePolicy;
use crate::sibling::{CatalogSnapshot, SiblingState};
use crate::text::{decimal_of, decimal_u128, same_text, trim, trim_of};
use vstd::prelude::*;

verus! {

/// The type of a secret, and one of its providers or all of them.
#[derive(Debug)]
pub struct SecretKey {
    pub ty_name: String,
    pub provider: Option<String>,
}

impl View for SecretKey {
    type V = (Seq<char>, Option<Seq<char>>);

    open spec fn view(&self) -> (Seq<char>, Option<Seq<char>>) {
        (self.ty_name@, view_opt(self.provider))
    }
}

impl Key for SecretKey {
    fn same_key(&self, other: &SecretKey) -> (r: bool) {
        self.ty_name == other.ty_name && match (&self.provider, &other.provider) {
            (None, None) => true,
            (Some(a), Some(b)) => *a == *b,
            _ => false,
        }
    }
}

/// What is known of the loaded extensions.
#[derive(Debug)]
pub struct ExtensionManager {
    /// The extensions that are loaded.
    pub loaded: NameMap<()>,
    /// Extension and callback handle of each `ATTACH` type.
    pub storage_backends: NameMap<(String, u32)>,
    /// The extension of each index type.
    pub index_backends: NameMap<String>,
    /// Extension and callback handle of the files backend.
    pub files_backend: Option<(String, u32)>,
    /// Transforming scalar and combinability of each collation.
    pub collations: NameMap<(String, bool)>,
    /// Extension and callback handle of each pragma, parser and optimizer rule.
    pub pragmas: NameMap<(String, u32)>,
    pub parsers: NameMap<(String, u32)>,
    pub optimizers: NameMap<(String, u32)>,
    pub filterable_tables: Vec<FilterableTableReg>,
    pub scans: ScanRegistry,
    pub resolver_policy: ResolvePolicy,
    /// Why the provider of each extension was chosen.
    pub last_resolutions: NameMap<String>,
    /// The host's own functions have been handed to the core.
    pub injected_ducklink_load: bool,
    pub injected_ducklink_prefix: bool,
    /// Alias and namespace of the declarations that wait for the core to be idle.
    pub deferred_prefix_declarations: Vec<(String, String)>,
    /// The extensions whose registrations wait for the core to be idle.
    pub deferred_drain_names: Vec<String>,
    pub deferred_registrations: PendingRegistrationsData,
    /// Extension and callback handle of each kind of secret.
    pub secret_backends: AssocMap<SecretKey, (String, u32)>,
    /// Extension and declaration of each option.
    pub settings_registry: NameMap<(String, SettingReg)>,
    /// Recent answers to catalog queries.
    pub catalog_snapshot: CatalogSnapshot,
    /// What a second core needs to know, where there may be one.
    pub sibling: Option<SiblingState>,
}

/// Every entry is backed by the same extension, and there is one.
pub open spec fn sole_backend(listed: Seq<(String, (String, u32))>) -> bool {
    listed.len() > 0 && forall|i: int|
        0 <= i < listed.len() ==> (#[trigger] listed[i]).1.0@ == listed[0].1.0@
}

/// Every entry is the same extension, and there is one.
pub open spec fn sole_index(listed: Seq<(String, String)>) -> bool {
    listed.len() > 0 && forall|i: int|
        0 <= i < listed.len() ==> (#[trigger] listed[i]).1@ == listed[0].1@
}

/// The first entry with the given callback handle.
pub open spec fn first_with_handle(listed: Seq<(String, (String, u32))>, handle: u32, from: int) -> Option<
    String,
>
    decreases listed.len() - from,
{
    if from < 0 || from >= listed.len() {
        None
    } else if listed[from].1.1 == handle {
        Some(listed[from].1.0)
    } else {
        first_with_handle(listed, handle, from + 1)
    }
}

pub open spec fn numbered(before: Seq<char>, n: int) -> Seq<char> {
    before + decimal_of(n)
}

pub(crate) fn build_numbered(before: &str, n: u32) -> (r: String)
    ensures
        r@ == numbered(before@, n as int),
{
    let mut m = before.to_owned();
    m.append(decimal_u128(n as u128).as_str());
    m
}

pub(crate) fn wrap(before: &str, s: &str, after: &str) -> (r: String)
    ensures
        r@ == before@ + s@ + after@,
{
    let mut m = before.to_owned();
    m.append(s);
    m.append(after);
    m
}

/// The storage backend that serves an `ATTACH`.
pub open spec fn storage_choice(m: ExtensionManager) -> Result<(String, u32), ErrorModel> {
    let listed = m.storage_backends.listed();
    if m.storage_backends@.contains_key("sqlitewasm"@) {
        Ok(m.storage_backends@["sqlitewasm"@])
    } else if sole_backend(listed) {
        Ok(listed[0].1)
    } else {
        Err(
            ErrorModel::Invalidstate(
                "no storage backend registered for 'sqlitewasm' (have "@ + decimal_of(
                    listed.len() as int,
                ) + " backend(s))"@,
            ),
        )
    }
}

/// The backend of an index type.
pub open spec fn index_choice(m: ExtensionManager, ty: Seq<char>) -> Result<String, ErrorModel> {
    let listed = m.index_backends.listed();
    if m.index_backends@.contains_key(ty) {
        Ok(m.index_backends@[ty])
    } else if sole_index(listed) {
        Ok(listed[0].1)
    } else {
        Err(
            ErrorModel::Invalidstate(
                "no index backend registered for '"@ + ty + "' (have "@ + decimal_of(
                    listed.len() as int,
                ) + " backend(s))"@,
            ),
        )
    }
}

impl ExtensionManager {
    /// Nothing is listed twice.
    pub open spec fn wf(&self) -> bool {
        &&& self.loaded.wf()
        &&& self.storage_backends.wf()
        &&& self.index_backends.wf()
        &&& self.collations.wf()
        &&& self.pragmas.wf()
        &&& self.parsers.wf()
        &&& self.optimizers.wf()
        &&& self.scans.wf()
        &&& self.last_resolutions.wf()
        &&& self.secret_backends.wf()
        &&& self.settings_registry.wf()
    }

    pub fn new(resolver_policy: ResolvePolicy) -> (r: ExtensionManager)
        ensures
            r.wf(),
            r.loaded@ == Map::<Seq<char>, ()>::empty(),
            r.storage_backends.listed() == Seq::<(String, (String, u32))>::empty(),
            r.index_backends.listed() == Seq::<(String, String)>::empty(),
            r.files_backend is None,
            r.collations.listed() == Seq::<(String, (String, bool))>::empty(),
            r.pragmas.listed() == Seq::<(String, (String, u32))>::empty(),
            r.parsers.listed() == Seq::<(String, (String, u32))>::empty(),
            r.optimizers.listed() == Seq::<(String, (String, u32))>::empty(),
            r.filterable_tables@.len() == 0,
            r.scans@ == Map::<u32, At5ScanTarget>::empty(),
            r.scans.cursor() == AT5_ATTACH_SCAN_HANDLE_MIN,
            r.resolver_policy == resolver_policy,
            r.last_resolutions@ == Map::<Seq<char>, String>::empty(),
            !r.injected_ducklink_load,
            !r.injected_ducklink_prefix,
            r.deferred_prefix_declarations@.len() == 0,
            r.deferred_drain_names@.len() == 0,
            r.deferred_registrations@ == PendingModel::empty(),
            r.secret_backends@ == Map::<(Seq<char>, Option<Seq<char>>), (String, u32)>::empty(),
            r.settings_registry@ == Map::<Seq<char>, (String, SettingReg)>::empty(),
            r.catalog_snapshot@ == Map::<Seq<char>, Seq<Seq<Seq<char>>>>::empty(),
            !r.catalog_snapshot.enabled,
            r.sibling is None,
    {
        ExtensionManager {
            loaded: NameMap::new(),
            storage_backends: NameMap::new(),
            index_backends: NameMap::new(),
            files_backend: None,
            collations: NameMap::new(),
            pragmas: NameMap::new(),
            parsers: NameMap::new(),
            optimizers: NameMap::new(),
            filterable_tables: Vec::new(),
            scans: ScanRegistry::new(),
            resolver_policy,
            last_resolutions: NameMap::new(),
            injected_ducklink_load: false,
            injected_ducklink_prefix: false,
            deferred_prefix_declarations: Vec::new(),
            deferred_drain_names: Vec::new(),
            deferred_registrations: PendingRegistrationsData::new(),
            secret_backends: AssocMap::new(),
            settings_registry: NameMap::new(),
            catalog_snapshot: CatalogSnapshot::new(),
            sibling: None,
        }
    }

    /// The extension is loaded, under the name that is made from the given one.
    pub fn is_loaded(&self, name: &str) -> (r: bool)
        ensures
            r == self.loaded@.contains_key(extension_name_of(name@)),
    {
        self.loaded.contains(sanitize_extension_name(name).as_str())
    }

    // -----------------------------------------------------------------------
    // Backends
    // -----------------------------------------------------------------------

    /// Extension and callback handle for an `ATTACH` type.
    pub fn storage_backend_for(&self, ty_name: &str) -> (r: Option<(String, u32)>)
        ensures
            r == (if self.storage_backends@.contains_key(ty_name@) {
                Some(self.storage_backends@[ty_name@])
            } else {
                None
            }),
    {
        match self.storage_backends.get(ty_name) {
            Some(p) => Some((p.0.clone(), p.1)),
            None => None,
        }
    }

    /// Extension and callback handle for a kind of secret: those of the named
    /// provider, else those of the type itself.
    pub fn secret_backend_for(&self, ty_name: &str, provider: Option<&str>) -> (r: Option<
        (String, u32),
    >)
        ensures
            ({
                let named = match provider {
                    Some(p) => self.secret_backends@.contains_key((ty_name@, Some(p@))),
                    None => false,
                };
                if named {
                    r == Some(self.secret_backends@[(ty_name@, Some(provider->0@))])
                } else if self.secret_backends@.contains_key((ty_name@, None)) {
                    r == Some(self.secret_backends@[(ty_name@, None)])
                } else {
                    r is None
                }
            }),
    {
        if let Some(p) = provider {
            let key = SecretKey { ty_name: ty_name.to_owned(), provider: Some(p.to_owned()) };
            if let Some(b) = self.secret_backends.get(&key) {
                return Some((b.0.clone(), b.1));
            }
        }
        let key = SecretKey { ty_name: ty_name.to_owned(), provider: None };
        match self.secret_backends.get(&key) {
            Some(b) => Some((b.0.clone(), b.1)),
            None => None,
        }
    }

    /// Extension and declaration of an option.
    pub fn setting_backend_for(&self, name: &str) -> (r: Option<(String, SettingReg)>)
        ensures
            r == (if self.settings_registry@.contains_key(name@) {
                Some(self.settings_registry@[name@])
            } else {
                None
            }),
    {
        match self.settings_registry.get(name) {
            Some(p) => Some((p.0.clone(), copy_setting(&p.1))),
            None => None,
        }
    }

    /// The storage backend that serves an `ATTACH`: the SQLite one where it is
    /// registered, else the one extension that backs every registered type.
    pub fn resolve_storage_backend(&self) -> (r: Result<(String, u32), Duckerror>)
        ensures
            match r {
                Ok(b) => storage_choice(*self) == Ok::<(String, u32), ErrorModel>(b),
                Err(e) => storage_choice(*self) == Err::<(String, u32), ErrorModel>(e@),
            },
    {
        if let Some(b) = self.storage_backends.get("sqlitewasm") {
            return Ok((b.0.clone(), b.1));
        }
        let n: usize = self.storage_backends.len();
        if n > 0 {
            let first = &self.storage_backends.entry(0).1;
            let mut i: usize = 0;
            let mut sole: bool = true;
            while i < n && sole
                invariant
                    i <= n == self.storage_backends.listed().len(),
                    *first == self.storage_backends.listed()[0].1,
                    sole ==> forall|j: int|
                        0 <= j < i ==> (#[trigger] self.storage_backends.listed()[j]).1.0@ == first.0@,
                    !sole ==> exists|j: int|
                        0 <= j < n && (#[trigger] self.storage_backends.listed()[j]).1.0@ != first.0@,
                decreases n - i,
            {
                if !same_text(self.storage_backends.entry(i).1.0.as_str(), first.0.as_str()) {
                    assert(self.storage_backends.listed()[i as int].1.0@ != first.0@);
                    sole = false;
                }
                i += 1;
            }
            if sole {
                return Ok((first.0.clone(), first.1));
            }
        }
        let mut m = "no storage backend registered for 'sqlitewasm' (have ".to_owned();
        m.append(decimal_u128(n as u128).as_str());
        m.append(" backend(s))");
        Err(Duckerror::Invalidstate(m))
    }

    /// The extension and the callback handle to call for a storage operation: those of
    /// the storage backend, if its extension is loaded.
    pub fn storage_target(&self) -> (r: Result<(String, u32), Duckerror>)
        ensures
            match storage_choice(*self) {
                Err(e) => r matches Err(f) && f@ == e,
                Ok(b) => if self.loaded@.contains_key(b.0@) {
                    r == Ok::<(String, u32), Duckerror>(b)
                } else {
                    r matches Err(f) && f@ == ErrorModel::Invalidstate(
                        "storage extension '"@ + b.0@ + "' not loaded"@,
                    )
                },
            },
    {
        match self.resolve_storage_backend() {
            Err(e) => Err(e),
            Ok((ext, handle)) => {
                if self.loaded.contains(ext.as_str()) {
                    Ok((ext, handle))
                } else {
                    Err(
                        Duckerror::Invalidstate(
                            wrap("storage extension '", ext.as_str(), "' not loaded"),
                        ),
                    )
                }
            },
        }
    }

    /// The extension that backs an index type: the one registered for it, else the one
    /// extension that backs every registered type.
    pub fn resolve_index_backend(&self, ty_name: &str) -> (r: Result<String, Duckerror>)
        ensures
            match r {
                Ok(b) => index_choice(*self, ty_name@) == Ok::<String, ErrorModel>(b),
                Err(e) => index_choice(*self, ty_name@) == Err::<String, ErrorModel>(e@),
            },
    {
        if let Some(b) = self.index_backends.get(ty_name) {
            return Ok(b.clone());
        }
        let n: usize = self.index_backends.len();
        if n > 0 {
            let first = &self.index_backends.entry(0).1;
            let mut i: usize = 0;
            let mut sole: bool = true;
            while i < n && sole
                invariant
                    i <= n == self.index_backends.listed().len(),
                    *first == self.index_backends.listed()[0].1,
                    sole ==> forall|j: int|
                        0 <= j < i ==> (#[trigger] self.index_backends.listed()[j]).1@ == first@,
                    !sole ==> exists|j: int|
                        0 <= j < n && (#[trigger] self.index_backends.listed()[j]).1@ != first@,
                decreases n - i,
            {
                if !same_text(self.index_backends.entry(i).1.as_str(), first.as_str()) {
                    assert(self.index_backends.listed()[i as int].1@ != first@);
                    sole = false;
                }
                i += 1;
            }
            if sole {
                return Ok(first.clone());
            }
        }
        let mut m = "no index backend registered for '".to_owned();
        m.append(ty_name);
        m.append("' (have ");
        m.append(decimal_u128(n as u128).as_str());
        m.append(" backend(s))");
        Err(Duckerror::Invalidstate(m))
    }

    /// The extension to call for an index operation.
    pub fn index_target(&self, ty_name: &str) -> (r: Result<String, Duckerror>)
        ensures
            match index_choice(*self, ty_name@) {
                Err(e) => r matches Err(f) && f@ == e,
                Ok(b) => if self.loaded@.contains_key(b@) {
                    r == Ok::<String, Duckerror>(b)
                } else {
                    r matches Err(f) && f@ == ErrorModel::Invalidstate(
                        "index extension '"@ + b@ + "' not loaded"@,
                    )
                },
            },
    {
        match self.resolve_index_backend(ty_name) {
            Err(e) => Err(e),
            Ok(ext) => {
                if self.loaded.contains(ext.as_str()) {
                    Ok(ext)
                } else {
                    Err(
                        Duckerror::Invalidstate(
                            wrap("index extension '", ext.as_str(), "' not loaded"),
                        ),
                    )
                }
            },
        }
    }

    /// Extension and callback handle of the files backend.
    pub fn resolve_files_backend(&self) -> (r: Result<(String, u32), String>)
        ensures
            match self.files_backend {
                Some(b) => r == Ok::<(String, u32), String>(b),
                None => r matches Err(m) && m@
                    == "no files backend loaded (LOAD a files extension, e.g. webfs)"@,
            },
    {
        match &self.files_backend {
            Some(b) => Ok((b.0.clone(), b.1)),
            None => Err(
                "no files backend loaded (LOAD a files extension, e.g. webfs)".to_owned(),
            ),
        }
    }

    /// The extension and the callback handle to call for a file operation.
    pub fn files_target(&self) -> (r: Result<(String, u32), String>)
        ensures
            match self.files_backend {
                Some(b) => if self.loaded@.contains_key(b.0@) {
                    r == Ok::<(String, u32), String>(b)
                } else {
                    r matches Err(m) && m@ == "files extension '"@ + b.0@ + "' not loaded"@
                },
                None => r matches Err(m) && m@
                    == "no files backend loaded (LOAD a files extension, e.g. webfs)"@,
            },
    {
        match self.resolve_files_backend() {
            Err(e) => Err(e),
            Ok((ext, handle)) => {
                if self.loaded.contains(ext.as_str()) {
                    Ok((ext, handle))
                } else {
                    Err(wrap("files extension '", ext.as_str(), "' not loaded"))
                }
            },
        }
    }

    // -----------------------------------------------------------------------
    // Lists for the core
    // -----------------------------------------------------------------------

    /// Name, transforming scalar and combinability of every collation.
    pub fn registered_collations(&self) -> (r: Vec<(String, String, bool)>)
        ensures
            r@.len() == self.collations.listed().len(),
            forall|i: int|
                0 <= i < r@.len() ==> (#[trigger] r@[i]).0 == self.collations.listed()[i].0 && r@[i].1
                    == self.collations.listed()[i].1.0 && r@[i].2 == self.collations.listed()[i].1.1,
    {
        let mut out: Vec<(String, String, bool)> = Vec::new();
        let mut i: usize = 0;
        while i < self.collations.len()
            invariant
                i <= self.collations.listed().len(),
                out@.len() == i,
                forall|j: int|
                    0 <= j < i ==> (#[trigger] out@[j]).0 == self.collations.listed()[j].0 && out@[j].1
                        == self.collations.listed()[j].1.0 && out@[j].2
                        == self.collations.listed()[j].1.1,
            decreases self.collations.listed().len() - i,
        {
            let e = self.collations.entry(i);
            out.push((e.0.clone(), e.1.0.clone(), e.1.1));
            i += 1;
        }
        out
    }

    /// Name and callback handle of every pragma.
    pub fn registered_pragmas(&self) -> (r: Vec<(String, u32)>)
        ensures
            lists_handles(r@, self.pragmas.listed()),
    {
        list_handles(&self.pragmas)
    }

    /// Name and callback handle of every parser.
    pub fn registered_parsers(&self) -> (r: Vec<(String, u32)>)
        ensures
            lists_handles(r@, self.parsers.listed()),
    {
        list_handles(&self.parsers)
    }

    /// Name and callback handle of every optimizer rule.
    pub fn registered_optimizers(&self) -> (r: Vec<(String, u32)>)
        ensures
            lists_handles(r@, self.optimizers.listed()),
    {
        list_handles(&self.optimizers)
    }

    /// Every `ATTACH` type.
    pub fn registered_storage_types(&self) -> (r: Vec<String>)
        ensures
            r@.len() == self.storage_backends.listed().len(),
            forall|i: int|
                0 <= i < r@.len() ==> #[trigger] r@[i] == self.storage_backends.listed()[i].0,
    {
        let mut out: Vec<String> = Vec::new();
        let mut i: usize = 0;
        while i < self.storage_backends.len()
            invariant
                i <= self.storage_backends.listed().len(),
                out@.len() == i,
                forall|j: int| 0 <= j < i ==> #[trigger] out@[j] == self.storage_backends.listed()[j].0,
            decreases self.storage_backends.listed().len() - i,
        {
            out.push(self.storage_backends.entry(i).0.clone());
            i += 1;
        }
        out
    }

    /// Every index type.
    pub fn registered_index_types(&self) -> (r: Vec<String>)
        ensures
            r@.len() == self.index_backends.listed().len(),
            forall|i: int|
                0 <= i < r@.len() ==> #[trigger] r@[i] == self.index_backends.listed()[i].0,
    {
        let mut out: Vec<String> = Vec::new();
        let mut i: usize = 0;
        while i < self.index_backends.len()
            invariant
                i <= self.index_backends.listed().len(),
                out@.len() == i,
                forall|j: int| 0 <= j < i ==> #[trigger] out@[j] == self.index_backends.listed()[j].0,
            decreases self.index_backends.listed().len() - i,
        {
            out.push(self.index_backends.entry(i).0.clone());
            i += 1;
        }
        out
    }

    /// Every filterable table function.
    pub fn registered_filterable_tables(&self) -> (r: &Vec<FilterableTableReg>)
        ensures
            *r == self.filterable_tables,
    {
        &self.filterable_tables
    }
}

/// The list holds the names and the callback handles of the entries, in order.
pub open spec fn lists_handles(r: Seq<(String, u32)>, listed: Seq<(String, (String, u32))>) -> bool {
    &&& r.len() == listed.len()
    &&& forall|i: int|
        0 <= i < r.len() ==> (#[trigger] r[i]).0 == listed[i].0 && r[i].1 == listed[i].1.1
}

fn list_handles(map: &NameMap<(String, u32)>) -> (r: Vec<(String, u32)>)
    ensures
        lists_handles(r@, map.listed()),
{
    let mut out: Vec<(String, u32)> = Vec::new();
    let mut i: usize = 0;
    while i < map.len()
        invariant
            i <= map.listed().len(),
            out@.len() == i,
            forall|j: int|
                0 <= j < i ==> (#[trigger] out@[j]).0 == map.listed()[j].0 && out@[j].1
                    == map.listed()[j].1.1,
        decreases map.listed().len() - i,
    {
        let e = map.entry(i);
        out.push((e.0.clone(), e.1.1));
        i += 1;
    }
    out
}

fn find_handle(map: &NameMap<(String, u32)>, handle: u32) -> (r: Option<String>)
    ensures
        r == first_with_handle(map.listed(), handle, 0),
{
    let mut i: usize = 0;
    while i < map.len()
        invariant
            i <= map.listed().len(),
            first_with_handle(map.listed(), handle, 0) == first_with_handle(
                map.listed(),
                handle,
                i as int,
            ),
        decreases map.listed().len() - i,
    {
        let e = map.entry(i);
        if e.1.1 == handle {
            return Some(e.1.0.clone());
        }
        i += 1;
    }
    None
}

// ---------------------------------------------------------------------------
// Parsers and optimizer rules
// ---------------------------------------------------------------------------

/// Why a parser's rewrite of a statement is refused: it is blank, or it is the
/// statement itself, which would be offered again without end.
pub open spec fn rewrite_error(ext: Seq<char>, query: Seq<char>, rewrite: Seq<char>) -> Option<Seq<char>> {
    if trim_of(rewrite).len() == 0 {
        Some("parser extension '"@ + ext + "' returned an empty rewrite"@)
    } else if trim_of(rewrite) == trim_of(query) {
        Some(
            "parser extension '"@ + ext
                + "' returned a rewrite identical to the input (would re-loop)"@,
        )
    } else {
        None
    }
}

pub fn validate_parser_rewrite(ext: &str, query: &str, rewrite: &str) -> (r: Result<(), String>)
    ensures
        match r {
            Ok(_) => rewrite_error(ext@, query@, rewrite@) is None,
            Err(m) => rewrite_error(ext@, query@, rewrite@) == Some(m@),
        },
{
    let t = trim(rewrite);
    if t.is_empty() {
        return Err(wrap("parser extension '", ext, "' returned an empty rewrite"));
    }
    if same_text(t, trim(query)) {
        return Err(
            wrap(
                "parser extension '",
                ext,
                "' returned a rewrite identical to the input (would re-loop)",
            ),
        );
    }
    Ok(())
}

/// What is passed on of a parser's answer.
pub fn finish_parse(ext: &str, query: &str, outcome: Result<Option<String>, Duckerror>) -> (r: Result<
    Option<String>,
    Duckerror,
>)
    ensures
        match outcome {
            Ok(Some(rewrite)) => match rewrite_error(ext@, query@, rewrite@) {
                None => r == outcome,
                Some(m) => r matches Err(e) && e@ == ErrorModel::Invalidargument(m),
            },
            _ => r == outcome,
        },
{
    match outcome {
        Ok(Some(rewrite)) => match validate_parser_rewrite(ext, query, rewrite.as_str()) {
            Ok(_) => Ok(Some(rewrite)),
            Err(m) => Err(Duckerror::Invalidargument(m)),
        },
        other => other,
    }
}

impl ExtensionManager {
    /// The extension to offer a rejected statement to.
    pub fn dispatch_parse(&self, handle: u32) -> (r: Result<String, Duckerror>)
        ensures
            match first_with_handle(self.parsers.listed(), handle, 0) {
                None => r matches Err(e) && e@ == ErrorModel::Invalidstate(
                    numbered("no parser extension registered for handle "@, handle as int),
                ),
                Some(ext) => if self.loaded@.contains_key(ext@) {
                    r == Ok::<String, Duckerror>(ext)
                } else {
                    r matches Err(e) && e@ == ErrorModel::Invalidstate(
                        "parser extension '"@ + ext@ + "' not loaded"@,
                    )
                },
            },
    {
        match find_handle(&self.parsers, handle) {
            None => Err(
                Duckerror::Invalidstate(
                    build_numbered("no parser extension registered for handle ", handle),
                ),
            ),
            Some(ext) => {
                if self.loaded.contains(ext.as_str()) {
                    Ok(ext)
                } else {
                    Err(
                        Duckerror::Invalidstate(
                            wrap("parser extension '", ext.as_str(), "' not loaded"),
                        ),
                    )
                }
            },
        }
    }

    /// The extension to offer a query plan to, and the nodes of the plan.
    pub fn dispatch_optimize(&self, handle: u32, plan_json: &str) -> (r: Result<
        (String, Vec<FlatNode>),
        Duckerror,
    >)
        ensures
            match first_with_handle(self.optimizers.listed(), handle, 0) {
                None => r matches Err(e) && e@ == ErrorModel::Invalidstate(
                    numbered("no optimizer rule registered for handle "@, handle as int),
                ),
                Some(ext) => match json_parsed(plan_json@) {
                    Err(m) => r matches Err(e) && e@ == ErrorModel::Invalidargument(
                        "bad plan JSON: "@ + m,
                    ),
                    Ok(j) => if self.loaded@.contains_key(ext@) {
                        r matches Ok((x, nodes)) && x == ext && nodes_view(nodes@) == plan_nodes(j)
                    } else {
                        r matches Err(e) && e@ == ErrorModel::Invalidstate(
                            "optimizer extension '"@ + ext@ + "' not loaded"@,
                        )
                    },
                },
            },
    {
        match find_handle(&self.optimizers, handle) {
            None => Err(
                Duckerror::Invalidstate(
                    build_numbered("no optimizer rule registered for handle ", handle),
                ),
            ),
            Some(ext) => match flatten_plan_json(plan_json) {
                Err(m) => Err(Duckerror::Invalidargument(m)),
                Ok(nodes) => {
                    if self.loaded.contains(ext.as_str()) {
                        Ok((ext, nodes))
                    } else {
                        Err(
                            Duckerror::Invalidstate(
                                wrap("optimizer extension '", ext.as_str(), "' not loaded"),
                            ),
                        )
                    }
                },
            },
        }
    }
}

// ---------------------------------------------------------------------------
// Laws
// ---------------------------------------------------------------------------

/// The storage backend is the one for "sqlitewasm" where there is one; else the first one,
/// provided that all backends are of one extension; else there is none.
pub proof fn law_storage_backend_choice(m: ExtensionManager)
    ensures
        ({
            let listed = m.storage_backends.listed();
            match storage_choice(m) {
                Ok(b) => if m.storage_backends@.contains_key("sqlitewasm"@) {
                    b == m.storage_backends@["sqlitewasm"@]
                } else {
                    listed.len() > 0 && b == listed[0].1 && forall|i: int|
                        0 <= i < listed.len() ==> (#[trigger] listed[i]).1.0@ == b.0@
                },
                Err(ErrorModel::Invalidstate(text)) => {
                    &&& !m.storage_backends@.contains_key("sqlitewasm"@)
                    &&& listed.len() == 0 || exists|i: int|
                        0 <= i < listed.len() && (#[trigger] listed[i]).1.0@ != listed[0].1.0@
                    &&& text == "no storage backend registered for 'sqlitewasm' (have "@ + decimal_of(
                        listed.len() as int,
                    ) + " backend(s))"@
                },
                Err(_) => false,
            }
        }),
{
}

/// An index type is served by its own extension where there is one; else by the only
/// extension that serves any; else by none.
pub proof fn law_index_backend_choice(m: ExtensionManager, ty: Seq<char>)
    ensures
        ({
            let listed = m.index_backends.listed();
            match index_choice(m, ty) {
                Ok(b) => if m.index_backends@.contains_key(ty) {
                    b == m.index_backends@[ty]
                } else {
                    listed.len() > 0 && b == listed[0].1 && forall|i: int|
                        0 <= i < listed.len() ==> (#[trigger] listed[i]).1@ == b@
                },
                Err(ErrorModel::Invalidstate(text)) => {
                    &&& !m.index_backends@.contains_key(ty)
                    &&& listed.len() == 0 || exists|i: int|
                        0 <= i < listed.len() && (#[trigger] listed[i]).1@ != listed[0].1@
                    &&& text == "no index backend registered for '"@ + ty + "' (have "@ + decimal_of(
                        listed.len() as int,
                    ) + " backend(s))"@
                },
                Err(_) => false,
            }
        }),
{
}

/// A handle leads to the first extension that registered it, and to none where no one did.
pub proof fn law_handle_leads_to_its_first_owner(
    listed: Seq<(String, (String, u32))>,
    handle: u32,
    from: int,
)
    requires
        0 <= from <= listed.len(),
    ensures
        match first_with_handle(listed, handle, from) {
            Some(ext) => exists|i: int|
                from <= i < listed.len() && (#[trigger] listed[i]).1.1 == handle && listed[i].1.0 == ext
                    && forall|j: int| from <= j < i ==> (#[trigger] listed[j]).1.1 != handle,
            None => forall|j: int| from <= j < listed.len() ==> (#[trigger] listed[j]).1.1 != handle,
        },
    decreases listed.len() - from,
{
    if from < listed.len() && listed[from].1.1 != handle {
        law_handle_leads_to_its_first_owner(listed, handle, from + 1);
        if first_with_handle(listed, handle, from + 1) is Some {
            let ext = first_with_handle(listed, handle, from + 1)->0;
            let i = choose|i: int|
                from + 1 <= i < listed.len() && (#[trigger] listed[i]).1.1 == handle && listed[i].1.0
                    == ext && forall|j: int|
                    from + 1 <= j < i ==> (#[trigger] listed[j]).1.1 != handle;
            assert(forall|j: int| from <= j < i ==> (#[trigger] listed[j]).1.1 != handle);
            assert(listed[i].1.1 == handle && listed[i].1.0 == ext);
        }
    } else if from < listed.len() {
        assert(listed[from].1.1 == handle);
    }
}

/// A rewrite is refused where nothing is left of it, or where it repeats the statement up
/// to white space at the ends; any other is accepted.
pub proof fn law_rewrite_must_change_the_statement(
    ext: Seq<char>,
    query: Seq<char>,
    rewrite: Seq<char>,
)
    ensures
        rewrite_error(ext, query, rewrite) is None <==> trim_of(rewrite).len() > 0 && trim_of(rewrite)
            != trim_of(query),
        rewrite_error(ext, query, query) is Some,
        trim_of(rewrite).len() == 0 ==> rewrite_error(ext, query, rewrite) == Some(
            "parser extension '"@ + ext + "' returned an empty rewrite"@,
        ),
        trim_of(rewrite).len() > 0 && trim_of(rewrite) == trim_of(query) ==> rewrite_error(
            ext,
            query,
            rewrite,
        ) == Some(
            "parser extension '"@ + ext
                + "' returned a rewrite identical to the input (would re-loop)"@,
        ),
{
}

/// A listing gives the name and the handle of each entry at its place.
pub proof fn law_listed_handles(
    r: Seq<(String, u32)>,
    listed: Seq<(String, (String, u32))>,
    before: Seq<char>,
    n: int,
    i: int,
)
    requires
        lists_handles(r, listed),
        0 <= i < listed.len(),
    ensures
        r.len() == listed.len(),
        r[i].0 == listed[i].0,
        r[i].1 == listed[i].1.1,
        numbered(before, n) == before + decimal_of(n),
{
}

/// A secret is known by its type and its provider.
pub proof fn law_secret_key_view(key: SecretKey)
    ensures
        key@.0 == key.ty_name@,
        key@.1 == view_opt(key.provider),
{
}

} // verus!
