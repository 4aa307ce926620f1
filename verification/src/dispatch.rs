//! Where a callback of the core goes: to an extension, or to a function of the host
//! itself.
use crate::extension_types::{Duckerror, Duckvalue};
use crate::ident::{
    extension_name_of, is_safe_ident, is_safe_prefix_identifier, sanitize_extension_name,
};
use crate::manager::{build_numbered, numbered, wrap, ExtensionManager};
use crate::model::{view_opt, views, ErrorModel, ValueModel};
use crate::reg::PendingRegistrationsData;
use crate::scan::{
    ScanState, AT5_ATTACH_SCAN_HANDLE_MAX, AT5_ATTACH_SCAN_HANDLE_MIN, DUCKLINK_LOAD_HANDLE,
    DUCKLINK_PREFIX_SCALAR_HANDLE, DUCKLINK_PREFIX_TABLE_HANDLE, RESOLVER_EXPLAIN_HANDLE,
    RESOLVER_SET_HANDLE,
};
use crate::settings::{forced_by, forced_sentence};
use crate::text::{ascii_lowercase, decimal_of, decimal_u128, lower, same_text};
use vstd::prelude::*;

verus! {

// ---------------------------------------------------------------------------
// Callbacks of extensions
// ---------------------------------------------------------------------------

#[derive(Clone, Copy, Debug, PartialEq, Eq, Structural)]
pub enum CallbackKind {
    Scalar,
    Table,
    Aggregate,
    Pragma,
    Cast,
}

/// What is registered under a callback handle.
#[derive(Debug)]
pub struct CallbackEntry {
    pub kind: CallbackKind,
    pub extension: String,
    pub dispatcher_handle: u32,
}

/// The extension to call, and its own handle for the callback.
#[derive(Debug)]
pub struct CallRoute {
    pub extension: String,
    pub dispatcher_handle: u32,
}

/// The entry, where it has the wanted kind.
pub open spec fn of_kind(entry: Option<CallbackEntry>, kind: CallbackKind) -> Option<CallbackEntry> {
    match entry {
        Some(e) => if e.kind == kind {
            Some(e)
        } else {
            None
        },
        None => None,
    }
}

pub fn lookup_callback(entry: Option<CallbackEntry>, kind: CallbackKind) -> (r: Option<CallbackEntry>)
    ensures
        r == of_kind(entry, kind),
{
    match entry {
        Some(e) => if e.kind == kind {
            Some(e)
        } else {
            None
        },
        None => None,
    }
}

/// Where a callback goes: to the extension of its entry, which has to be loaded.
pub open spec fn route_of(loaded: Map<Seq<char>, ()>, entry: CallbackEntry) -> Result<
    CallRoute,
    ErrorModel,
> {
    if loaded.contains_key(entry.extension@) {
        Ok(CallRoute { extension: entry.extension, dispatcher_handle: entry.dispatcher_handle })
    } else {
        Err(ErrorModel::Invalidstate("extension "@ + entry.extension@ + " is not loaded"@))
    }
}

/// Where a callback of the given kind goes; `unknown` begins the error that is given
/// where no such callback is registered under the handle.
pub open spec fn kind_route(
    loaded: Map<Seq<char>, ()>,
    entry: Option<CallbackEntry>,
    kind: CallbackKind,
    unknown: Seq<char>,
    handle: u32,
) -> Result<CallRoute, ErrorModel> {
    match of_kind(entry, kind) {
        Some(e) => route_of(loaded, e),
        None => Err(ErrorModel::Invalidstate(numbered(unknown, handle as int))),
    }
}

/// A result with its error by its view.
pub open spec fn err_view<T>(r: Result<T, Duckerror>) -> Result<T, ErrorModel> {
    match r {
        Ok(x) => Ok(x),
        Err(e) => Err(e@),
    }
}

impl ExtensionManager {
    fn route(&self, entry: CallbackEntry) -> (r: Result<CallRoute, Duckerror>)
        ensures
            err_view(r) == route_of(self.loaded@, entry),
    {
        if self.loaded.contains(entry.extension.as_str()) {
            Ok(CallRoute { extension: entry.extension, dispatcher_handle: entry.dispatcher_handle })
        } else {
            Err(
                Duckerror::Invalidstate(
                    wrap("extension ", entry.extension.as_str(), " is not loaded"),
                ),
            )
        }
    }

    fn route_kind(
        &self,
        entry: Option<CallbackEntry>,
        kind: CallbackKind,
        unknown: &str,
        handle: u32,
    ) -> (r: Result<CallRoute, Duckerror>)
        ensures
            err_view(r) == kind_route(self.loaded@, entry, kind, unknown@, handle),
    {
        match lookup_callback(entry, kind) {
            Some(e) => self.route(e),
            None => Err(Duckerror::Invalidstate(build_numbered(unknown, handle))),
        }
    }

    /// Where the call of an aggregate goes.
    pub fn dispatch_aggregate(&self, handle: u32, entry: Option<CallbackEntry>) -> (r: Result<
        CallRoute,
        Duckerror,
    >)
        ensures
            err_view(r) == kind_route(
                self.loaded@,
                entry,
                CallbackKind::Aggregate,
                "unknown aggregate callback handle "@,
                handle,
            ),
    {
        self.route_kind(
            entry,
            CallbackKind::Aggregate,
            "unknown aggregate callback handle ",
            handle,
        )
    }

    /// Where the call of a pragma goes.
    pub fn dispatch_pragma(&self, handle: u32, entry: Option<CallbackEntry>) -> (r: Result<
        CallRoute,
        Duckerror,
    >)
        ensures
            err_view(r) == kind_route(
                self.loaded@,
                entry,
                CallbackKind::Pragma,
                "unknown pragma callback handle "@,
                handle,
            ),
    {
        self.route_kind(entry, CallbackKind::Pragma, "unknown pragma callback handle ", handle)
    }

    /// Where the call of a cast goes.
    pub fn dispatch_cast(&self, handle: u32, entry: Option<CallbackEntry>) -> (r: Result<
        CallRoute,
        Duckerror,
    >)
        ensures
            err_view(r) == kind_route(
                self.loaded@,
                entry,
                CallbackKind::Cast,
                "unknown cast callback handle "@,
                handle,
            ),
    {
        self.route_kind(entry, CallbackKind::Cast, "unknown cast callback handle ", handle)
    }

    /// Where opening, reading and closing a filterable table function go.
    pub fn dispatch_table_stream(&self, handle: u32, entry: Option<CallbackEntry>) -> (r: Result<
        CallRoute,
        Duckerror,
    >)
        ensures
            err_view(r) == kind_route(
                self.loaded@,
                entry,
                CallbackKind::Table,
                "unknown filterable-table handle "@,
                handle,
            ),
    {
        self.route_kind(entry, CallbackKind::Table, "unknown filterable-table handle ", handle)
    }
}

// ---------------------------------------------------------------------------
// Arguments of the host's own functions
// ---------------------------------------------------------------------------

/// An argument that has to be a text.
#[derive(Debug)]
pub enum TextArg {
    /// It is missing or NULL.
    Missing,
    /// It is something else.
    Other,
    Text(String),
}

/// The same, by its view.
#[verifier::ext_equal]
pub enum TextArgModel {
    Missing,
    Other,
    Text(Seq<char>),
}

pub open spec fn text_arg_at(args: Seq<Duckvalue>, i: int) -> TextArgModel {
    if !(0 <= i < args.len()) {
        TextArgModel::Missing
    } else {
        match args[i] {
            Duckvalue::Null => TextArgModel::Missing,
            Duckvalue::Text(s) => TextArgModel::Text(s@),
            _ => TextArgModel::Other,
        }
    }
}

fn text_arg(args: &[Duckvalue], i: usize) -> (r: TextArg)
    ensures
        match r {
            TextArg::Missing => text_arg_at(args@, i as int) is Missing,
            TextArg::Other => text_arg_at(args@, i as int) is Other,
            TextArg::Text(s) => text_arg_at(args@, i as int) == TextArgModel::Text(s@),
        },
{
    if i >= args.len() {
        TextArg::Missing
    } else {
        match &args[i] {
            Duckvalue::Null => TextArg::Missing,
            Duckvalue::Text(s) => TextArg::Text(s.clone()),
            _ => TextArg::Other,
        }
    }
}

// ---------------------------------------------------------------------------
// ducklink_prefix
// ---------------------------------------------------------------------------

/// The alias and the namespace that a call of `ducklink_prefix` declares, or why it
/// is refused.
pub open spec fn prefix_request(args: Seq<Duckvalue>) -> Result<(Seq<char>, Seq<char>), ErrorModel> {
    match text_arg_at(args, 0) {
        TextArgModel::Missing => Err(
            ErrorModel::Invalidargument(
                "ducklink_prefix: missing required VARCHAR argument 'alias'"@,
            ),
        ),
        TextArgModel::Other => Err(
            ErrorModel::Invalidargument(
                "ducklink_prefix: first argument (alias) must be VARCHAR"@,
            ),
        ),
        TextArgModel::Text(alias) => match text_arg_at(args, 1) {
            TextArgModel::Missing => Err(
                ErrorModel::Invalidargument(
                    "ducklink_prefix: missing required VARCHAR argument 'namespace'"@,
                ),
            ),
            TextArgModel::Other => Err(
                ErrorModel::Invalidargument(
                    "ducklink_prefix: second argument (namespace) must be VARCHAR"@,
                ),
            ),
            TextArgModel::Text(namespace) => if is_safe_ident(alias) && is_safe_ident(namespace) {
                Ok((alias, namespace))
            } else {
                Err(
                    ErrorModel::Invalidargument(
                        "ducklink_prefix: alias and namespace must match [A-Za-z0-9_]+ (got alias='"@
                            + alias + "', namespace='"@ + namespace + "')"@,
                    ),
                )
            },
        },
    }
}

/// The waiting declarations, by their views.
pub open spec fn queue_view(queue: Seq<(String, String)>) -> Seq<(Seq<char>, Seq<char>)> {
    queue.map_values(|p: (String, String)| (p.0@, p.1@))
}

/// The queue with a declaration that was not in it at its end.
pub open spec fn queued<T>(queue: Seq<T>, item: T) -> Seq<T> {
    if queue.contains(item) {
        queue
    } else {
        queue.push(item)
    }
}

/// What `ducklink_prefix` answers in a query's select list.
pub open spec fn prefix_summary(alias: Seq<char>, namespace: Seq<char>) -> Seq<char> {
    "alias='"@ + alias + "' namespace='"@ + namespace + "' macros=0 (deferred)"@
}

/// The queue after calls of `ducklink_prefix` on rows of arguments: a refused row ends
/// them.
pub open spec fn queue_after(queue: Seq<(Seq<char>, Seq<char>)>, rows: Seq<Vec<Duckvalue>>) -> Seq<
    (Seq<char>, Seq<char>),
>
    decreases rows.len(),
{
    if rows.len() == 0 {
        queue
    } else {
        match prefix_request(rows[0]@) {
            Ok(pair) => queue_after(queued(queue, pair), rows.drop_first()),
            Err(_) => queue,
        }
    }
}

/// The answers to such calls, or the error of the first refused row.
pub open spec fn summaries_of(rows: Seq<Vec<Duckvalue>>) -> Result<Seq<ValueModel>, ErrorModel>
    decreases rows.len(),
{
    if rows.len() == 0 {
        Ok(Seq::empty())
    } else {
        match prefix_request(rows[0]@) {
            Ok(pair) => match summaries_of(rows.drop_first()) {
                Ok(rest) => Ok(seq![ValueModel::Text(prefix_summary(pair.0, pair.1))] + rest),
                Err(e) => Err(e),
            },
            Err(e) => Err(e),
        }
    }
}

impl ExtensionManager {
    /// Checks the arguments of `ducklink_prefix` and puts the declaration into the
    /// queue, unless it waits there already.
    pub fn native_ducklink_prefix_common(&mut self, args: &[Duckvalue]) -> (r: Result<
        (String, String),
        Duckerror,
    >)
        ensures
            *final(self) == (ExtensionManager {
                deferred_prefix_declarations: final(self).deferred_prefix_declarations,
                ..*old(self)
            }),
            match prefix_request(args@) {
                Ok(pair) => {
                    &&& r matches Ok(p) && (p.0@, p.1@) == pair
                    &&& queue_view(final(self).deferred_prefix_declarations@) == queued(
                        queue_view(old(self).deferred_prefix_declarations@),
                        pair,
                    )
                },
                Err(e) => {
                    &&& r matches Err(f) && f@ == e
                    &&& final(self).deferred_prefix_declarations
                        == old(self).deferred_prefix_declarations
                },
            },
    {
        let alias = match text_arg(args, 0) {
            TextArg::Text(s) => s,
            TextArg::Missing => {
                return Err(
                    Duckerror::Invalidargument(
                        "ducklink_prefix: missing required VARCHAR argument 'alias'".to_owned(),
                    ),
                );
            },
            TextArg::Other => {
                return Err(
                    Duckerror::Invalidargument(
                        "ducklink_prefix: first argument (alias) must be VARCHAR".to_owned(),
                    ),
                );
            },
        };
        let namespace = match text_arg(args, 1) {
            TextArg::Text(s) => s,
            TextArg::Missing => {
                return Err(
                    Duckerror::Invalidargument(
                        "ducklink_prefix: missing required VARCHAR argument 'namespace'".to_owned(),
                    ),
                );
            },
            TextArg::Other => {
                return Err(
                    Duckerror::Invalidargument(
                        "ducklink_prefix: second argument (namespace) must be VARCHAR".to_owned(),
                    ),
                );
            },
        };
        if !is_safe_prefix_identifier(alias.as_str()) || !is_safe_prefix_identifier(
            namespace.as_str(),
        ) {
            let mut m =
                "ducklink_prefix: alias and namespace must match [A-Za-z0-9_]+ (got alias='".to_owned();
            m.append(alias.as_str());
            m.append("', namespace='");
            m.append(namespace.as_str());
            m.append("')");
            return Err(Duckerror::Invalidargument(m));
        }
        let ghost pair = (alias@, namespace@);
        let ghost before = queue_view(self.deferred_prefix_declarations@);
        let n: usize = self.deferred_prefix_declarations.len();
        let mut i: usize = 0;
        let mut waits: bool = false;
        while i < n
            invariant
                i <= n == self.deferred_prefix_declarations@.len(),
                *self == *old(self),
                pair == (alias@, namespace@),
                before == queue_view(self.deferred_prefix_declarations@),
                waits ==> before.contains(pair),
                !waits ==> forall|j: int| 0 <= j < i ==> #[trigger] before[j] != pair,
            decreases n - i,
        {
            let d = &self.deferred_prefix_declarations[i];
            assert(before[i as int] == (d.0@, d.1@));
            if same_text(d.0.as_str(), alias.as_str()) && same_text(
                d.1.as_str(),
                namespace.as_str(),
            ) {
                waits = true;
            }
            i += 1;
        }
        if !waits {
            self.deferred_prefix_declarations.push((alias.clone(), namespace.clone()));
            assert(queue_view(self.deferred_prefix_declarations@) =~= before.push(pair));
        }
        Ok((alias, namespace))
    }

    /// `ducklink_prefix` as a table function: one row with the alias, the namespace
    /// and no macros yet.
    pub fn native_ducklink_prefix_table(&mut self, args: &[Duckvalue]) -> (r: Result<
        Vec<Vec<Duckvalue>>,
        Duckerror,
    >)
        ensures
            *final(self) == (ExtensionManager {
                deferred_prefix_declarations: final(self).deferred_prefix_declarations,
                ..*old(self)
            }),
            match prefix_request(args@) {
                Ok(pair) => {
                    &&& r matches Ok(rows) && rows@.len() == 1 && views(rows@[0]@) == seq![
                        ValueModel::Text(pair.0),
                        ValueModel::Text(pair.1),
                        ValueModel::Int64(0),
                    ]
                    &&& queue_view(final(self).deferred_prefix_declarations@) == queued(
                        queue_view(old(self).deferred_prefix_declarations@),
                        pair,
                    )
                },
                Err(e) => {
                    &&& r matches Err(f) && f@ == e
                    &&& final(self).deferred_prefix_declarations
                        == old(self).deferred_prefix_declarations
                },
            },
    {
        match self.native_ducklink_prefix_common(args) {
            Err(e) => Err(e),
            Ok((alias, namespace)) => {
                let ghost pair = (alias@, namespace@);
                let mut row: Vec<Duckvalue> = Vec::new();
                row.push(Duckvalue::Text(alias));
                row.push(Duckvalue::Text(namespace));
                row.push(Duckvalue::Int64(0));
                assert(views(row@) =~= seq![
                    ValueModel::Text(pair.0),
                    ValueModel::Text(pair.1),
                    ValueModel::Int64(0),
                ]);
                let mut rows: Vec<Vec<Duckvalue>> = Vec::new();
                rows.push(row);
                Ok(rows)
            },
        }
    }

    /// `ducklink_prefix` as a scalar function: one sentence.
    pub fn native_ducklink_prefix_scalar(&mut self, args: &[Duckvalue]) -> (r: Result<
        Duckvalue,
        Duckerror,
    >)
        ensures
            *final(self) == (ExtensionManager {
                deferred_prefix_declarations: final(self).deferred_prefix_declarations,
                ..*old(self)
            }),
            match prefix_request(args@) {
                Ok(pair) => {
                    &&& r matches Ok(v) && v@ == ValueModel::Text(prefix_summary(pair.0, pair.1))
                    &&& queue_view(final(self).deferred_prefix_declarations@) == queued(
                        queue_view(old(self).deferred_prefix_declarations@),
                        pair,
                    )
                },
                Err(e) => {
                    &&& r matches Err(f) && f@ == e
                    &&& final(self).deferred_prefix_declarations
                        == old(self).deferred_prefix_declarations
                },
            },
    {
        match self.native_ducklink_prefix_common(args) {
            Err(e) => Err(e),
            Ok((alias, namespace)) => {
                let mut m = "alias='".to_owned();
                m.append(alias.as_str());
                m.append("' namespace='");
                m.append(namespace.as_str());
                m.append("' macros=0 (deferred)");
                Ok(Duckvalue::Text(m))
            },
        }
    }

    /// Hands the waiting declarations out; none waits afterwards.
    pub fn take_deferred_prefix_declarations(&mut self) -> (r: Vec<(String, String)>)
        ensures
            r == old(self).deferred_prefix_declarations,
            final(self).deferred_prefix_declarations@.len() == 0,
            *final(self) == (ExtensionManager {
                deferred_prefix_declarations: final(self).deferred_prefix_declarations,
                ..*old(self)
            }),
    {
        let mut out: Vec<(String, String)> = Vec::new();
        std::mem::swap(&mut out, &mut self.deferred_prefix_declarations);
        out
    }
}

// ---------------------------------------------------------------------------
// Scalar functions
// ---------------------------------------------------------------------------

/// What becomes of the call of a scalar function.
#[derive(Debug)]
pub enum ScalarCall {
    Answered(Duckvalue),
    Forward(CallRoute),
}

/// What becomes of the call of a scalar function on a batch of rows.
#[derive(Debug)]
pub enum BatchCall {
    Answered(Vec<Duckvalue>),
    /// The choice of provider is to be explained for these extensions.
    Explain(Vec<String>),
    Forward(CallRoute),
}

/// The text at the start of a row; empty where there is none.
pub open spec fn first_text(row: Seq<Duckvalue>) -> Seq<char> {
    match text_arg_at(row, 0) {
        TextArgModel::Text(s) => s,
        _ => Seq::empty(),
    }
}

fn take_first_text(row: &Vec<Duckvalue>) -> (r: String)
    ensures
        r@ == first_text(row@),
{
    match text_arg(row.as_slice(), 0) {
        TextArg::Text(s) => s,
        _ => {
            let empty = String::new();
            assert(empty@ =~= Seq::<char>::empty());
            empty
        },
    }
}

/// The texts at the start of the rows.
pub open spec fn first_texts(rows: Seq<Vec<Duckvalue>>) -> Seq<Seq<char>> {
    rows.map_values(|row: Vec<Duckvalue>| first_text(row@))
}

/// Where the call of a scalar function goes.
pub open spec fn scalar_route(loaded: Map<Seq<char>, ()>, entry: Option<CallbackEntry>, handle: u32) -> Result<
    CallRoute,
    ErrorModel,
> {
    match entry {
        Some(e) => if e.kind == CallbackKind::Scalar {
            route_of(loaded, e)
        } else {
            Err(
                ErrorModel::Invalidstate(
                    "callback handle "@ + decimal_of(handle as int) + " is not scalar"@,
                ),
            )
        },
        None => Err(
            ErrorModel::Invalidstate(
                numbered("unknown scalar callback handle "@, handle as int),
            ),
        ),
    }
}

impl ExtensionManager {
    /// What becomes of the call of a scalar function: `ducklink_prefix` is answered by
    /// the host, any other goes to its extension.
    pub fn dispatch_scalar(
        &mut self,
        handle: u32,
        args: &[Duckvalue],
        entry: Option<CallbackEntry>,
    ) -> (r: Result<ScalarCall, Duckerror>)
        ensures
            *final(self) == (ExtensionManager {
                deferred_prefix_declarations: final(self).deferred_prefix_declarations,
                ..*old(self)
            }),
            if handle == DUCKLINK_PREFIX_SCALAR_HANDLE {
                match prefix_request(args@) {
                    Ok(pair) => {
                        &&& r matches Ok(ScalarCall::Answered(v)) && v@ == ValueModel::Text(
                            prefix_summary(pair.0, pair.1),
                        )
                        &&& queue_view(final(self).deferred_prefix_declarations@) == queued(
                            queue_view(old(self).deferred_prefix_declarations@),
                            pair,
                        )
                    },
                    Err(e) => {
                        &&& r matches Err(f) && f@ == e
                        &&& *final(self) == *old(self)
                    },
                }
            } else {
                &&& *final(self) == *old(self)
                &&& match scalar_route(old(self).loaded@, entry, handle) {
                    Ok(route) => r == Ok::<ScalarCall, Duckerror>(ScalarCall::Forward(route)),
                    Err(e) => r matches Err(f) && f@ == e,
                }
            },
    {
        if handle == DUCKLINK_PREFIX_SCALAR_HANDLE {
            return match self.native_ducklink_prefix_scalar(args) {
                Ok(v) => Ok(ScalarCall::Answered(v)),
                Err(e) => Err(e),
            };
        }
        match entry {
            Some(e) => {
                if e.kind == CallbackKind::Scalar {
                    match self.route(e) {
                        Ok(route) => Ok(ScalarCall::Forward(route)),
                        Err(e) => Err(e),
                    }
                } else {
                    let mut m = "callback handle ".to_owned();
                    m.append(decimal_u128(handle as u128).as_str());
                    m.append(" is not scalar");
                    Err(Duckerror::Invalidstate(m))
                }
            },
            None => Err(
                Duckerror::Invalidstate(build_numbered("unknown scalar callback handle ", handle)),
            ),
        }
    }

    fn prefix_batch(&mut self, rows: &Vec<Vec<Duckvalue>>) -> (r: Result<Vec<Duckvalue>, Duckerror>)
        ensures
            *final(self) == (ExtensionManager {
                deferred_prefix_declarations: final(self).deferred_prefix_declarations,
                ..*old(self)
            }),
            queue_view(final(self).deferred_prefix_declarations@) == queue_after(
                queue_view(old(self).deferred_prefix_declarations@),
                rows@,
            ),
            match summaries_of(rows@) {
                Ok(vs) => r matches Ok(out) && views(out@) == vs,
                Err(e) => r matches Err(f) && f@ == e,
            },
    {
        let ghost q0 = queue_view(self.deferred_prefix_declarations@);
        let mut out: Vec<Duckvalue> = Vec::new();
        let mut i: usize = 0;
        assert(rows@.skip(0) =~= rows@);
        assert(views(out@) =~= Seq::<ValueModel>::empty());
        proof {
            if let Ok(vs) = summaries_of(rows@) {
                assert(Seq::<ValueModel>::empty() + vs =~= vs);
            }
        }
        while i < rows.len()
            invariant
                i <= rows@.len(),
                *self == (ExtensionManager {
                    deferred_prefix_declarations: self.deferred_prefix_declarations,
                    ..*old(self)
                }),
                q0 == queue_view(old(self).deferred_prefix_declarations@),
                queue_after(q0, rows@) == queue_after(
                    queue_view(self.deferred_prefix_declarations@),
                    rows@.skip(i as int),
                ),
                match summaries_of(rows@.skip(i as int)) {
                    Ok(vs) => summaries_of(rows@) == Ok::<Seq<ValueModel>, ErrorModel>(
                        views(out@) + vs,
                    ),
                    Err(e) => summaries_of(rows@) == Err::<Seq<ValueModel>, ErrorModel>(e),
                },
            decreases rows@.len() - i,
        {
            let ghost rest = rows@.skip(i as int);
            assert(rest.drop_first() =~= rows@.skip(i + 1));
            assert(rest[0] == rows@[i as int]);
            let ghost before = views(out@);
            match self.native_ducklink_prefix_scalar(rows[i].as_slice()) {
                Ok(v) => {
                    let ghost m = v@;
                    out.push(v);
                    assert(views(out@) =~= before.push(m));
                    proof {
                        if let Ok(vs) = summaries_of(rest.drop_first()) {
                            assert(before + (seq![m] + vs) =~= before.push(m) + vs);
                        }
                    }
                },
                Err(e) => {
                    return Err(e);
                },
            }
            i += 1;
        }
        assert(rows@.skip(i as int) =~= Seq::<Vec<Duckvalue>>::empty());
        assert(views(out@) + Seq::<ValueModel>::empty() =~= views(out@));
        Ok(out)
    }

    fn force_batch(&mut self, rows: &Vec<Vec<Duckvalue>>) -> (r: Vec<Duckvalue>)
        ensures
            *final(self) == (ExtensionManager {
                resolver_policy: final(self).resolver_policy,
                ..*old(self)
            }),
            final(self).resolver_policy.denied == old(self).resolver_policy.denied,
            rows@.len() == 0 ==> *final(self) == *old(self),
            rows@.len() > 0 ==> view_opt(final(self).resolver_policy.forced_provider) == forced_by(
                first_text(rows@.last()@),
            ),
            views(r@) == first_texts(rows@).map_values(
                |s: Seq<char>| ValueModel::Text(forced_sentence(s)),
            ),
    {
        let mut out: Vec<Duckvalue> = Vec::new();
        let mut i: usize = 0;
        while i < rows.len()
            invariant
                i <= rows@.len(),
                *self == (ExtensionManager { resolver_policy: self.resolver_policy, ..*old(self) }),
                self.resolver_policy.denied == old(self).resolver_policy.denied,
                i == 0 ==> *self == *old(self),
                i > 0 ==> view_opt(self.resolver_policy.forced_provider) == forced_by(
                    first_text(rows@[i - 1]@),
                ),
                out@.len() == i,
                forall|j: int|
                    0 <= j < i ==> (#[trigger] out@[j])@ == ValueModel::Text(
                        forced_sentence(first_text(rows@[j]@)),
                    ),
            decreases rows@.len() - i,
        {
            let id = take_first_text(&rows[i]);
            let sentence = self.resolver_policy.set_forced_provider(id.as_str());
            out.push(Duckvalue::Text(sentence));
            i += 1;
        }
        assert(views(out@) =~= first_texts(rows@).map_values(
            |s: Seq<char>| ValueModel::Text(forced_sentence(s)),
        ));
        out
    }

    /// What becomes of the call of a scalar function on a batch of rows:
    /// `ducklink_prefix` and the choice of a provider are answered by the host, an
    /// explanation of a choice is asked for, and any other call goes to its extension.
    pub fn dispatch_scalar_batch(
        &mut self,
        handle: u32,
        rows: &Vec<Vec<Duckvalue>>,
        entry: Option<CallbackEntry>,
    ) -> (r: Result<BatchCall, Duckerror>)
        ensures
            if handle == DUCKLINK_PREFIX_SCALAR_HANDLE {
                &&& *final(self) == (ExtensionManager {
                    deferred_prefix_declarations: final(self).deferred_prefix_declarations,
                    ..*old(self)
                })
                &&& queue_view(final(self).deferred_prefix_declarations@) == queue_after(
                    queue_view(old(self).deferred_prefix_declarations@),
                    rows@,
                )
                &&& match summaries_of(rows@) {
                    Ok(vs) => r matches Ok(BatchCall::Answered(out)) && views(out@) == vs,
                    Err(e) => r matches Err(f) && f@ == e,
                }
            } else if handle == RESOLVER_EXPLAIN_HANDLE {
                &&& *final(self) == *old(self)
                &&& r matches Ok(BatchCall::Explain(names)) && views(names@) == first_texts(rows@)
            } else if handle == RESOLVER_SET_HANDLE {
                &&& *final(self) == (ExtensionManager {
                    resolver_policy: final(self).resolver_policy,
                    ..*old(self)
                })
                &&& final(self).resolver_policy.denied == old(self).resolver_policy.denied
                &&& if rows@.len() == 0 {
                    *final(self) == *old(self)
                } else {
                    view_opt(final(self).resolver_policy.forced_provider) == forced_by(
                        first_text(rows@.last()@),
                    )
                }
                &&& r matches Ok(BatchCall::Answered(out)) && views(out@) == first_texts(
                    rows@,
                ).map_values(|s: Seq<char>| ValueModel::Text(forced_sentence(s)))
            } else {
                &&& *final(self) == *old(self)
                &&& match kind_route(
                    old(self).loaded@,
                    entry,
                    CallbackKind::Scalar,
                    "unknown scalar callback handle "@,
                    handle,
                ) {
                    Ok(route) => r == Ok::<BatchCall, Duckerror>(BatchCall::Forward(route)),
                    Err(e) => r matches Err(f) && f@ == e,
                }
            },
    {
        if handle == DUCKLINK_PREFIX_SCALAR_HANDLE {
            return match self.prefix_batch(rows) {
                Ok(out) => Ok(BatchCall::Answered(out)),
                Err(e) => Err(e),
            };
        }
        if handle == RESOLVER_EXPLAIN_HANDLE {
            let mut names: Vec<String> = Vec::new();
            let mut i: usize = 0;
            while i < rows.len()
                invariant
                    i <= rows@.len(),
                    names@.len() == i,
                    forall|j: int| 0 <= j < i ==> (#[trigger] names@[j])@ == first_text(rows@[j]@),
                decreases rows@.len() - i,
            {
                names.push(take_first_text(&rows[i]));
                i += 1;
            }
            assert(views(names@) =~= first_texts(rows@));
            return Ok(BatchCall::Explain(names));
        }
        if handle == RESOLVER_SET_HANDLE {
            return Ok(BatchCall::Answered(self.force_batch(rows)));
        }
        match self.route_kind(
            entry,
            CallbackKind::Scalar,
            "unknown scalar callback handle ",
            handle,
        ) {
            Ok(route) => Ok(BatchCall::Forward(route)),
            Err(e) => Err(e),
        }
    }
}

// ---------------------------------------------------------------------------
// ducklink_load
// ---------------------------------------------------------------------------

/// An accepted call of `ducklink_load`: the name that was given, and the extension
/// name that is made from it.
#[derive(Debug)]
pub struct LoadRequest {
    pub name: String,
    pub sanitized: String,
}

/// The name that a call of `ducklink_load` asks for, or why it is refused.
pub open spec fn load_request(args: Seq<Duckvalue>) -> Result<Seq<char>, ErrorModel> {
    match text_arg_at(args, 0) {
        TextArgModel::Missing => Err(
            ErrorModel::Invalidargument("ducklink_load: missing required VARCHAR argument 'name'"@),
        ),
        TextArgModel::Other => Err(
            ErrorModel::Invalidargument("ducklink_load: first argument must be VARCHAR"@),
        ),
        TextArgModel::Text(name) => match text_arg_at(args, 1) {
            TextArgModel::Missing => Ok(name),
            TextArgModel::Other => Err(
                ErrorModel::Invalidargument(
                    "ducklink_load: second argument (kind) must be VARCHAR"@,
                ),
            ),
            TextArgModel::Text(kind) => if lower(kind) == "wasm"@ {
                Ok(name)
            } else if lower(kind) == "native"@ {
                Err(
                    ErrorModel::Unsupported(
                        "ducklink_load(kind='native'): the workspace host has no native provider path yet — use kind='wasm' (the default)"@,
                    ),
                )
            } else {
                Err(
                    ErrorModel::Invalidargument(
                        "ducklink_load: kind must be 'wasm' or 'native', got '"@ + lower(kind)
                            + "'"@,
                    ),
                )
            },
        },
    }
}

/// Checks the arguments of `ducklink_load`.
pub fn begin_ducklink_load(args: &[Duckvalue]) -> (r: Result<LoadRequest, Duckerror>)
    ensures
        match load_request(args@) {
            Ok(name) => r matches Ok(q) && q.name@ == name && q.sanitized@ == extension_name_of(name),
            Err(e) => r matches Err(f) && f@ == e,
        },
{
    let name = match text_arg(args, 0) {
        TextArg::Text(s) => s,
        TextArg::Missing => {
            return Err(
                Duckerror::Invalidargument(
                    "ducklink_load: missing required VARCHAR argument 'name'".to_owned(),
                ),
            );
        },
        TextArg::Other => {
            return Err(
                Duckerror::Invalidargument(
                    "ducklink_load: first argument must be VARCHAR".to_owned(),
                ),
            );
        },
    };
    match text_arg(args, 1) {
        TextArg::Missing => {},
        TextArg::Other => {
            return Err(
                Duckerror::Invalidargument(
                    "ducklink_load: second argument (kind) must be VARCHAR".to_owned(),
                ),
            );
        },
        TextArg::Text(given) => {
            let kind = ascii_lowercase(given.as_str());
            if same_text(kind.as_str(), "wasm") {
            } else if same_text(kind.as_str(), "native") {
                return Err(
                    Duckerror::Unsupported(
                        "ducklink_load(kind='native'): the workspace host has no native provider path yet — use kind='wasm' (the default)".to_owned(),
                    ),
                );
            } else {
                return Err(
                    Duckerror::Invalidargument(
                        wrap("ducklink_load: kind must be 'wasm' or 'native', got '", kind.as_str(), "'"),
                    ),
                );
            }
        },
    }
    let sanitized = sanitize_extension_name(name.as_str());
    Ok(LoadRequest { name, sanitized })
}

/// The error of a load that found no provider.
pub open spec fn no_provider_text(name: Seq<char>, sanitized: Seq<char>) -> Seq<char> {
    "ducklink_load: no admissible provider for '"@ + name
        + "' — no manifest entry, no <extensions-dir>/"@ + sanitized
        + ".wasm shortcut, or the resolver declined the candidates"@
}

/// The row that `ducklink_load` answers: the extension, no path, and how many scalar
/// functions, table functions and aggregates it brought.
pub open spec fn load_row(sanitized: Seq<char>, drained: Option<PendingRegistrationsData>) -> Seq<ValueModel> {
    let (scalars, tables, aggregates) = match drained {
        Some(d) => (d.scalars@.len(), d.tables@.len(), d.aggregates@.len()),
        None => (0nat, 0nat, 0nat),
    };
    seq![
        ValueModel::Text(sanitized),
        ValueModel::Null,
        ValueModel::Int64(scalars as i64),
        ValueModel::Int64(tables as i64),
        ValueModel::Int64(aggregates as i64),
    ]
}

impl ExtensionManager {
    /// Answers `ducklink_load` once the extension was asked to load. What it declared
    /// is put aside for the core, and so is its name, unless it waits already.
    pub fn native_ducklink_load(
        &mut self,
        request: &LoadRequest,
        outcome: Result<bool, String>,
        drained: Option<PendingRegistrationsData>,
    ) -> (r: Result<Vec<Vec<Duckvalue>>, Duckerror>)
        ensures
            *final(self) == (ExtensionManager {
                deferred_registrations: final(self).deferred_registrations,
                deferred_drain_names: final(self).deferred_drain_names,
                ..*old(self)
            }),
            match outcome {
                Err(m) => {
                    &&& *final(self) == *old(self)
                    &&& r matches Err(e) && e@ == ErrorModel::Internal(
                        "ducklink_load: failed to load '"@ + request.name@ + "': "@ + m@,
                    )
                },
                Ok(false) => {
                    &&& *final(self) == *old(self)
                    &&& r matches Err(e) && e@ == ErrorModel::Invalidargument(
                        no_provider_text(request.name@, request.sanitized@),
                    )
                },
                Ok(true) => {
                    &&& match drained {
                        Some(d) => final(self).deferred_registrations@
                            == old(self).deferred_registrations@.plus(d@),
                        None => final(self).deferred_registrations
                            == old(self).deferred_registrations,
                    }
                    &&& views(final(self).deferred_drain_names@) == queued(
                        views(old(self).deferred_drain_names@),
                        request.sanitized@,
                    )
                    &&& r matches Ok(rows) && rows@.len() == 1 && views(rows@[0]@) == load_row(
                        request.sanitized@,
                        drained,
                    )
                },
            },
    {
        match outcome {
            Err(m) => {
                let mut text = "ducklink_load: failed to load '".to_owned();
                text.append(request.name.as_str());
                text.append("': ");
                text.append(m.as_str());
                return Err(Duckerror::Internal(text));
            },
            Ok(false) => {
                let mut text = "ducklink_load: no admissible provider for '".to_owned();
                text.append(request.name.as_str());
                text.append("' — no manifest entry, no <extensions-dir>/");
                text.append(request.sanitized.as_str());
                text.append(".wasm shortcut, or the resolver declined the candidates");
                return Err(Duckerror::Invalidargument(text));
            },
            Ok(true) => {},
        }
        let ghost given = drained;
        let mut scalars: usize = 0;
        let mut tables: usize = 0;
        let mut aggregates: usize = 0;
        if let Some(d) = drained {
            scalars = d.scalars.len();
            tables = d.tables.len();
            aggregates = d.aggregates.len();
            self.deferred_registrations.append(d);
        }
        let ghost before = views(self.deferred_drain_names@);
        let n: usize = self.deferred_drain_names.len();
        let mut i: usize = 0;
        let mut waits: bool = false;
        while i < n
            invariant
                i <= n == self.deferred_drain_names@.len(),
                before == views(self.deferred_drain_names@),
                waits ==> before.contains(request.sanitized@),
                !waits ==> forall|j: int| 0 <= j < i ==> #[trigger] before[j] != request.sanitized@,
            decreases n - i,
        {
            assert(before[i as int] == self.deferred_drain_names@[i as int]@);
            if same_text(self.deferred_drain_names[i].as_str(), request.sanitized.as_str()) {
                waits = true;
            }
            i += 1;
        }
        if !waits {
            self.deferred_drain_names.push(request.sanitized.clone());
            assert(views(self.deferred_drain_names@) =~= before.push(request.sanitized@));
        }
        let mut row: Vec<Duckvalue> = Vec::new();
        row.push(Duckvalue::Text(request.sanitized.clone()));
        row.push(Duckvalue::Null);
        row.push(Duckvalue::Int64(scalars as i64));
        row.push(Duckvalue::Int64(tables as i64));
        row.push(Duckvalue::Int64(aggregates as i64));
        assert(views(row@) =~= load_row(request.sanitized@, given));
        let mut rows: Vec<Vec<Duckvalue>> = Vec::new();
        rows.push(row);
        Ok(rows)
    }

    /// Hands the waiting extension names out; none waits afterwards.
    pub fn take_deferred_drain_names(&mut self) -> (r: Vec<String>)
        ensures
            r == old(self).deferred_drain_names,
            final(self).deferred_drain_names@.len() == 0,
            *final(self) == (ExtensionManager {
                deferred_drain_names: final(self).deferred_drain_names,
                ..*old(self)
            }),
    {
        let mut out: Vec<String> = Vec::new();
        std::mem::swap(&mut out, &mut self.deferred_drain_names);
        out
    }
}

// ---------------------------------------------------------------------------
// Table functions
// ---------------------------------------------------------------------------

/// A scan of an attached table that is to be opened: the extension, the catalog, the
/// table, and where the scan stands.
#[derive(Debug)]
pub struct ScanStart {
    pub extension: String,
    pub catalog_handle: u32,
    pub table: String,
    pub state: ScanState,
}

/// What becomes of the call of a table function.
#[derive(Debug)]
pub enum TableCall {
    Scan(ScanStart),
    Load(LoadRequest),
    Answered(Vec<Vec<Duckvalue>>),
    Forward(CallRoute),
}

/// The scan that a handle stands for.
pub open spec fn scan_start(m: ExtensionManager, handle: u32) -> Result<ScanStart, ErrorModel> {
    if !m.scans@.contains_key(handle) {
        Err(
            ErrorModel::Invalidstate(
                numbered("unknown AT5 attach-scan handle "@, handle as int),
            ),
        )
    } else {
        let t = m.scans@[handle];
        if m.loaded@.contains_key(t.extension@) {
            Ok(
                ScanStart {
                    extension: t.extension,
                    catalog_handle: t.catalog_handle,
                    table: t.table,
                    state: ScanState::Opening { storage_handle: t.storage_handle },
                },
            )
        } else {
            Err(
                ErrorModel::Invalidstate(
                    "AT5 attach-scan handle "@ + decimal_of(handle as int)
                        + " points at extension '"@ + t.extension@ + "', which is not loaded"@,
                ),
            )
        }
    }
}

impl ExtensionManager {
    /// The scan of an attached table: of all its columns, without filters and without
    /// a limit.
    pub fn native_at5_attach_scan(&self, handle: u32) -> (r: Result<ScanStart, Duckerror>)
        ensures
            err_view(r) == scan_start(*self, handle),
    {
        match self.scans.target(handle) {
            None => Err(
                Duckerror::Invalidstate(build_numbered("unknown AT5 attach-scan handle ", handle)),
            ),
            Some(t) => {
                if self.loaded.contains(t.extension.as_str()) {
                    Ok(
                        ScanStart {
                            extension: t.extension.clone(),
                            catalog_handle: t.catalog_handle,
                            table: t.table.clone(),
                            state: ScanState::Opening { storage_handle: t.storage_handle },
                        },
                    )
                } else {
                    let mut m = "AT5 attach-scan handle ".to_owned();
                    m.append(decimal_u128(handle as u128).as_str());
                    m.append(" points at extension '");
                    m.append(t.extension.as_str());
                    m.append("', which is not loaded");
                    Err(Duckerror::Invalidstate(m))
                }
            },
        }
    }

    /// What becomes of the call of a table function: a scan of an attached table, the
    /// host's own `ducklink_load` and `ducklink_prefix`, or a call of an extension.
    pub fn dispatch_table(
        &mut self,
        handle: u32,
        args: &[Duckvalue],
        entry: Option<CallbackEntry>,
    ) -> (r: Result<TableCall, Duckerror>)
        ensures
            *final(self) == (ExtensionManager {
                deferred_prefix_declarations: final(self).deferred_prefix_declarations,
                ..*old(self)
            }),
            handle != DUCKLINK_PREFIX_TABLE_HANDLE ==> *final(self) == *old(self),
            if AT5_ATTACH_SCAN_HANDLE_MIN <= handle <= AT5_ATTACH_SCAN_HANDLE_MAX {
                match scan_start(*old(self), handle) {
                    Ok(s) => r == Ok::<TableCall, Duckerror>(TableCall::Scan(s)),
                    Err(e) => r matches Err(f) && f@ == e,
                }
            } else if handle == DUCKLINK_LOAD_HANDLE {
                match load_request(args@) {
                    Ok(name) => r matches Ok(TableCall::Load(q)) && q.name@ == name && q.sanitized@
                        == extension_name_of(name),
                    Err(e) => r matches Err(f) && f@ == e,
                }
            } else if handle == DUCKLINK_PREFIX_TABLE_HANDLE {
                match prefix_request(args@) {
                    Ok(pair) => {
                        &&& r matches Ok(TableCall::Answered(rows)) && rows@.len() == 1 && views(
                            rows@[0]@,
                        ) == seq![
                            ValueModel::Text(pair.0),
                            ValueModel::Text(pair.1),
                            ValueModel::Int64(0),
                        ]
                        &&& queue_view(final(self).deferred_prefix_declarations@) == queued(
                            queue_view(old(self).deferred_prefix_declarations@),
                            pair,
                        )
                    },
                    Err(e) => {
                        &&& r matches Err(f) && f@ == e
                        &&& *final(self) == *old(self)
                    },
                }
            } else {
                match kind_route(
                    old(self).loaded@,
                    entry,
                    CallbackKind::Table,
                    "unknown table callback handle "@,
                    handle,
                ) {
                    Ok(route) => r == Ok::<TableCall, Duckerror>(TableCall::Forward(route)),
                    Err(e) => r matches Err(f) && f@ == e,
                }
            },
    {
        if AT5_ATTACH_SCAN_HANDLE_MIN <= handle && handle <= AT5_ATTACH_SCAN_HANDLE_MAX {
            return match self.native_at5_attach_scan(handle) {
                Ok(s) => Ok(TableCall::Scan(s)),
                Err(e) => Err(e),
            };
        }
        if handle == DUCKLINK_LOAD_HANDLE {
            return match begin_ducklink_load(args) {
                Ok(q) => Ok(TableCall::Load(q)),
                Err(e) => Err(e),
            };
        }
        if handle == DUCKLINK_PREFIX_TABLE_HANDLE {
            return match self.native_ducklink_prefix_table(args) {
                Ok(rows) => Ok(TableCall::Answered(rows)),
                Err(e) => Err(e),
            };
        }
        match self.route_kind(
            entry,
            CallbackKind::Table,
            "unknown table callback handle ",
            handle,
        ) {
            Ok(route) => Ok(TableCall::Forward(route)),
            Err(e) => Err(e),
        }
    }
}

// ---------------------------------------------------------------------------
// Laws
// ---------------------------------------------------------------------------

/// A request that waits already is not put into the queue again, and no two waiting
/// requests are ever the same.
pub proof fn law_requests_wait_once<T>(queue: Seq<T>, item: T)
    ensures
        queued(queued(queue, item), item) == queued(queue, item),
        queued(queue, item).contains(item),
        queue.no_duplicates() ==> queued(queue, item).no_duplicates(),
{
    if !queue.contains(item) {
        assert(queue.push(item)[queue.len() as int] == item);
    }
}

/// A queue keeps what waits in it, in order, when another request comes.
pub proof fn law_waiting_requests_stay<T>(queue: Seq<T>, item: T)
    ensures
        queue.is_prefix_of(queued(queue, item)),
{
}

/// Every pair is made of plain identifiers.
pub open spec fn plain_pairs(queue: Seq<(Seq<char>, Seq<char>)>) -> bool {
    forall|i: int|
        0 <= i < queue.len() ==> is_safe_ident((#[trigger] queue[i]).0) && is_safe_ident(queue[i].1)
}

/// A refused `ducklink_prefix` leaves no declaration behind: what waits in the queue
/// after any calls are pairs of plain identifiers, if only such pairs waited before.
pub proof fn law_waiting_declarations_are_identifiers(
    queue: Seq<(Seq<char>, Seq<char>)>,
    rows: Seq<Vec<Duckvalue>>,
)
    requires
        plain_pairs(queue),
    ensures
        plain_pairs(queue_after(queue, rows)),
    decreases rows.len(),
{
    if rows.len() > 0 {
        match prefix_request(rows[0]@) {
            Ok(pair) => {
                assert(plain_pairs(queued(queue, pair)));
                law_waiting_declarations_are_identifiers(queued(queue, pair), rows.drop_first());
            },
            Err(_) => {},
        }
    }
}

/// A call is forwarded to the extension of its entry, with the entry's own handle, exactly
/// where the entry is of the called kind and the extension is loaded. The refusals say which
/// of the two is missing.
pub proof fn law_call_goes_to_its_entry(
    loaded: Map<Seq<char>, ()>,
    entry: Option<CallbackEntry>,
    kind: CallbackKind,
    unknown: Seq<char>,
    handle: u32,
)
    ensures
        match (entry, kind_route(loaded, entry, kind, unknown, handle)) {
            (Some(e), Ok(route)) => e.kind == kind && loaded.contains_key(e.extension@)
                && route.extension == e.extension && route.dispatcher_handle == e.dispatcher_handle,
            (Some(e), Err(ErrorModel::Invalidstate(m))) => if e.kind == kind {
                !loaded.contains_key(e.extension@) && m == "extension "@ + e.extension@
                    + " is not loaded"@
            } else {
                m == unknown + decimal_of(handle as int)
            },
            (None, Err(ErrorModel::Invalidstate(m))) => m == unknown + decimal_of(handle as int),
            _ => false,
        },
        match (entry, scalar_route(loaded, entry, handle)) {
            (Some(e), Ok(route)) => e.kind == CallbackKind::Scalar && loaded.contains_key(e.extension@)
                && route.extension == e.extension && route.dispatcher_handle == e.dispatcher_handle,
            (Some(e), Err(ErrorModel::Invalidstate(m))) => if e.kind == CallbackKind::Scalar {
                !loaded.contains_key(e.extension@) && m == "extension "@ + e.extension@
                    + " is not loaded"@
            } else {
                m == "callback handle "@ + decimal_of(handle as int) + " is not scalar"@
            },
            (None, Err(ErrorModel::Invalidstate(m))) => m == "unknown scalar callback handle "@
                + decimal_of(handle as int),
            _ => false,
        },
{
}

/// A declaration names its alias in the first argument and its namespace in the second,
/// both texts of letters, digits and underscores, and is taken with exactly these.
pub proof fn law_declaration_arguments(args: Seq<Duckvalue>)
    ensures
        match prefix_request(args) {
            Ok((alias, namespace)) => {
                &&& args.len() >= 2
                &&& args[0] matches Duckvalue::Text(a) && a@ == alias
                &&& args[1] matches Duckvalue::Text(n) && n@ == namespace
                &&& is_safe_ident(alias)
                &&& is_safe_ident(namespace)
            },
            Err(ErrorModel::Invalidargument(m)) => {
                let first = if args.len() > 0 { args[0] } else { Duckvalue::Null };
                let second = if args.len() > 1 { args[1] } else { Duckvalue::Null };
                match (first, second) {
                    (Duckvalue::Null, _) => m
                        == "ducklink_prefix: missing required VARCHAR argument 'alias'"@,
                    (Duckvalue::Text(a), Duckvalue::Null) => m
                        == "ducklink_prefix: missing required VARCHAR argument 'namespace'"@,
                    (Duckvalue::Text(a), Duckvalue::Text(n)) => !(is_safe_ident(a@) && is_safe_ident(n@))
                        && m
                        == "ducklink_prefix: alias and namespace must match [A-Za-z0-9_]+ (got alias='"@
                        + a@ + "', namespace='"@ + n@ + "')"@,
                    (Duckvalue::Text(a), _) => m
                        == "ducklink_prefix: second argument (namespace) must be VARCHAR"@,
                    _ => m == "ducklink_prefix: first argument (alias) must be VARCHAR"@,
                }
            },
            Err(_) => false,
        },
{
}

/// A load names its extension in the first argument; a second argument can only be the kind
/// "wasm", in any case.
pub proof fn law_load_arguments(args: Seq<Duckvalue>)
    ensures
        match load_request(args) {
            Ok(name) => {
                &&& args.len() >= 1
                &&& args[0] matches Duckvalue::Text(n) && n@ == name
                &&& args.len() == 1 || args[1] is Null || (args[1] matches Duckvalue::Text(k) && lower(k@)
                    == "wasm"@)
            },
            Err(ErrorModel::Unsupported(m)) => args.len() >= 2 && (args[1] matches Duckvalue::Text(k)
                && lower(k@) == "native"@),
            Err(ErrorModel::Invalidargument(m)) => {
                let first = if args.len() > 0 { args[0] } else { Duckvalue::Null };
                let second = if args.len() > 1 { args[1] } else { Duckvalue::Null };
                match (first, second) {
                    (Duckvalue::Null, _) => m
                        == "ducklink_load: missing required VARCHAR argument 'name'"@,
                    (Duckvalue::Text(_), Duckvalue::Null) => false,
                    (Duckvalue::Text(_), Duckvalue::Text(k)) => lower(k@) != "wasm"@ && lower(k@)
                        != "native"@ && m
                        == "ducklink_load: kind must be 'wasm' or 'native', got '"@ + lower(k@) + "'"@,
                    (Duckvalue::Text(_), _) => m
                        == "ducklink_load: second argument (kind) must be VARCHAR"@,
                    _ => m == "ducklink_load: first argument must be VARCHAR"@,
                }
            },
            Err(_) => false,
        },
{
}

/// The answer to a load names the extension and counts what it brought, kind by kind.
pub proof fn law_load_row_counts(sanitized: Seq<char>, drained: Option<PendingRegistrationsData>)
    ensures
        load_row(sanitized, drained).len() == 5,
        load_row(sanitized, drained)[0] == ValueModel::Text(sanitized),
        load_row(sanitized, drained)[1] is Null,
        match drained {
            Some(d) => d.scalars@.len() <= i64::MAX && d.tables@.len() <= i64::MAX
                && d.aggregates@.len() <= i64::MAX ==> {
                &&& load_row(sanitized, drained)[2] matches ValueModel::Int64(n) && n
                    == d.scalars@.len()
                &&& load_row(sanitized, drained)[3] matches ValueModel::Int64(n) && n
                    == d.tables@.len()
                &&& load_row(sanitized, drained)[4] matches ValueModel::Int64(n) && n
                    == d.aggregates@.len()
            },
            None => load_row(sanitized, drained)[2] == ValueModel::Int64(0) && load_row(
                sanitized,
                drained,
            )[3] == ValueModel::Int64(0) && load_row(sanitized, drained)[4] == ValueModel::Int64(0),
        },
{
}

/// A scan handle leads to the table, the catalog and the backend that were registered under
/// it, provided that their extension is loaded.
pub proof fn law_scan_goes_to_its_table(m: ExtensionManager, handle: u32)
    ensures
        match scan_start(m, handle) {
            Ok(s) => {
                &&& m.scans@.contains_key(handle)
                &&& m.loaded@.contains_key(s.extension@)
                &&& s.extension == m.scans@[handle].extension
                &&& s.catalog_handle == m.scans@[handle].catalog_handle
                &&& s.table == m.scans@[handle].table
                &&& s.state == (ScanState::Opening {
                    storage_handle: m.scans@[handle].storage_handle,
                })
            },
            Err(ErrorModel::Invalidstate(text)) => if m.scans@.contains_key(handle) {
                !m.loaded@.contains_key(m.scans@[handle].extension@) && text
                    == "AT5 attach-scan handle "@ + decimal_of(handle as int)
                    + " points at extension '"@ + m.scans@[handle].extension@
                    + "', which is not loaded"@
            } else {
                text == "unknown AT5 attach-scan handle "@ + decimal_of(handle as int)
            },
            Err(_) => false,
        },
{
}

/// A batch of declarations is answered row by row. It is refused as a whole where a row is
/// refused, with the error of the first such row, and what stood before it waits.
pub proof fn law_batch_is_answered_by_row(
    queue: Seq<(Seq<char>, Seq<char>)>,
    row: Vec<Duckvalue>,
    rest: Seq<Vec<Duckvalue>>,
)
    ensures
        ({
            let rows = seq![row] + rest;
            match prefix_request(row@) {
                Ok((alias, namespace)) => {
                    &&& queue_after(queue, rows) == queue_after(
                        (if queue.contains((alias, namespace)) {
                            queue
                        } else {
                            queue.push((alias, namespace))
                        }),
                        rest,
                    )
                    &&& match (summaries_of(rest), summaries_of(rows)) {
                        (Ok(a), Ok(b)) => b == seq![
                            ValueModel::Text(
                                "alias='"@ + alias + "' namespace='"@ + namespace
                                    + "' macros=0 (deferred)"@,
                            ),
                        ] + a,
                        (Err(a), Err(b)) => a == b,
                        _ => false,
                    }
                },
                Err(e) => queue_after(queue, rows) == queue && summaries_of(rows) == Err::<
                    Seq<ValueModel>,
                    ErrorModel,
                >(e),
            }
        }),
        queue_after(queue, Seq::empty()) == queue,
        summaries_of(Seq::empty()) == Ok::<Seq<ValueModel>, ErrorModel>(Seq::empty()),
{
    let rows = seq![row] + rest;
    assert(rows[0] == row);
    assert(rows.drop_first() =~= rest);
}

/// The text that a row asks about stands in its first place; any other value asks about
/// nothing.
pub proof fn law_first_texts(rows: Seq<Vec<Duckvalue>>, i: int)
    requires
        0 <= i < rows.len(),
    ensures
        first_texts(rows).len() == rows.len(),
        first_texts(rows)[i] == (if rows[i]@.len() > 0 {
            match rows[i]@[0] {
                Duckvalue::Text(s) => s@,
                _ => Seq::empty(),
            }
        } else {
            Seq::empty()
        }),
{
}

/// The refusal of a load names what was asked for and the file that was looked for.
pub proof fn law_no_provider_text(name: Seq<char>, sanitized: Seq<char>)
    ensures
        no_provider_text(name, sanitized) == "ducklink_load: no admissible provider for '"@ + name
            + "' — no manifest entry, no <extensions-dir>/"@ + sanitized
            + ".wasm shortcut, or the resolver declined the candidates"@,
{
}

/// The view of a reply keeps a success as it is and shows the view of an error, and the view
/// of the queue shows each pair at its place.
pub proof fn law_dispatch_views<T>(r: Result<T, Duckerror>, queue: Seq<(String, String)>, i: int)
    ensures
        match (r, err_view(r)) {
            (Ok(a), Ok(b)) => a == b,
            (Err(a), Err(b)) => a@ == b,
            _ => false,
        },
        queue_view(queue).len() == queue.len(),
        0 <= i < queue.len() ==> queue_view(queue)[i] == (queue[i].0@, queue[i].1@),
{
}

/// A text argument is taken from its own place; NULL counts as missing.
pub proof fn law_text_arguments(args: Seq<Duckvalue>, i: int)
    requires
        i >= 0,
    ensures
        match text_arg_at(args, i) {
            TextArgModel::Missing => i >= args.len() || args[i] is Null,
            TextArgModel::Text(s) => i < args.len() && (args[i] matches Duckvalue::Text(t) && t@ == s),
            TextArgModel::Other => i < args.len() && !(args[i] is Null) && !(args[i] is Text),
        },
{
}

} // verus!
