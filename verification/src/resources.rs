//! The connections, result streams, prepared statements and appenders that the command
//! line holds. The core's own handles are kept by the numbers that the caller gives
//! them.
use crate::cli_types::{Duckerror, Duckvalue};
use crate::convert::{convert_core_duckerror, convert_core_row};
use crate::core_types;
use crate::model::{rows_of, view_opt, views, ErrorModel};
use crate::sibling::{sanitize_sibling_open_path, shared_path, SiblingState};
use std::collections::HashMap;
use vstd::prelude::*;

verus! {

broadcast use vstd::std_specs::hash::group_hash_axioms;

/// A resource: the core's handle, and whether it was closed there.
#[derive(Clone, Copy, Debug, PartialEq, Eq, Structural)]
pub struct Entry {
    pub handle: u64,
    pub closed: bool,
}

/// The resources of one kind, and those among them that the command line has let go.
#[derive(Debug)]
pub struct ResourceTable {
    entries: HashMap<u32, Entry>,
    pending: Vec<u32>,
}

#[verifier::ext_equal]
pub struct TableModel {
    pub entries: Map<u32, Entry>,
    pub pending: Seq<u32>,
}

impl View for ResourceTable {
    type V = TableModel;

    closed spec fn view(&self) -> TableModel {
        TableModel { entries: self.entries@, pending: self.pending@ }
    }
}

/// The entries and the identifiers that are left, and the handle that is to be dropped
/// in the core, when the first of the identifiers that needs it is let go. One that is
/// unknown or closed does not.
pub open spec fn first_drop(entries: Map<u32, Entry>, ids: Seq<u32>) -> (
    Map<u32, Entry>,
    Seq<u32>,
    Option<u64>,
)
    decreases ids.len(),
{
    if ids.len() == 0 {
        (entries, ids, None)
    } else if entries.contains_key(ids[0]) && !entries[ids[0]].closed {
        (entries.remove(ids[0]), ids.drop_first(), Some(entries[ids[0]].handle))
    } else {
        first_drop(entries.remove(ids[0]), ids.drop_first())
    }
}

impl ResourceTable {
    pub fn new() -> (r: ResourceTable)
        ensures
            r@ == (TableModel { entries: Map::empty(), pending: Seq::empty() }),
    {
        let r = ResourceTable { entries: HashMap::new(), pending: Vec::new() };
        assert(r@ =~= (TableModel { entries: Map::empty(), pending: Seq::empty() }));
        r
    }

    pub fn insert(&mut self, id: u32, handle: u64)
        ensures
            final(self)@ == (TableModel {
                entries: old(self)@.entries.insert(id, Entry { handle, closed: false }),
                ..old(self)@
            }),
    {
        self.entries.insert(id, Entry { handle, closed: false });
    }

    /// The handle of a known resource.
    pub fn handle(&self, id: u32) -> (r: Option<u64>)
        ensures
            r == (if self@.entries.contains_key(id) {
                Some(self@.entries[id].handle)
            } else {
                None
            }),
    {
        match self.entries.get(&id) {
            Some(e) => Some(e.handle),
            None => None,
        }
    }

    /// The handle to close in the core: that of a known resource which is not closed
    /// yet.
    pub fn open_handle(&self, id: u32) -> (r: Option<u64>)
        ensures
            r == (if self@.entries.contains_key(id) && !self@.entries[id].closed {
                Some(self@.entries[id].handle)
            } else {
                None
            }),
    {
        match self.entries.get(&id) {
            Some(e) => if e.closed {
                None
            } else {
                Some(e.handle)
            },
            None => None,
        }
    }

    /// Notes that a resource was closed in the core.
    pub fn mark_closed(&mut self, id: u32)
        ensures
            final(self)@ == (if old(self)@.entries.contains_key(id) {
                TableModel {
                    entries: old(self)@.entries.insert(
                        id,
                        Entry { closed: true, ..old(self)@.entries[id] },
                    ),
                    ..old(self)@
                }
            } else {
                old(self)@
            }),
    {
        let found: Option<u64> = self.handle(id);
        if let Some(handle) = found {
            self.entries.insert(id, Entry { handle, closed: true });
        }
    }

    /// Notes that the command line has let a resource go.
    pub fn schedule_drop(&mut self, id: u32)
        ensures
            final(self)@ == (TableModel { pending: old(self)@.pending.push(id), ..old(self)@ }),
    {
        self.pending.push(id);
    }

    /// Hands out the identifiers that were let go; none is noted afterwards.
    pub fn take_pending(&mut self) -> (r: Vec<u32>)
        ensures
            r@ == old(self)@.pending,
            final(self)@ == (TableModel { pending: Seq::empty(), ..old(self)@ }),
    {
        let mut out: Vec<u32> = Vec::new();
        std::mem::swap(&mut out, &mut self.pending);
        assert(self@.pending =~= Seq::<u32>::empty());
        out
    }

    /// Lets identifiers go, from position `pos` on, up to the first one whose handle is
    /// to be dropped in the core. Returns that handle and the position behind it.
    fn next_drop(&mut self, ids: &Vec<u32>, pos: usize) -> (r: (usize, Option<u64>))
        requires
            pos <= ids@.len(),
        ensures
            pos <= r.0 <= ids@.len(),
            final(self)@.pending == old(self)@.pending,
            first_drop(old(self)@.entries, ids@.skip(pos as int)) == (
                final(self)@.entries,
                ids@.skip(r.0 as int),
                r.1,
            ),
    {
        let mut i: usize = pos;
        let ghost start = ids@.skip(pos as int);
        while i < ids.len()
            invariant
                pos <= i <= ids@.len(),
                start == ids@.skip(pos as int),
                self@.pending == old(self)@.pending,
                first_drop(old(self)@.entries, start) == first_drop(
                    self@.entries,
                    ids@.skip(i as int),
                ),
            decreases ids@.len() - i,
        {
            let id: u32 = ids[i];
            assert(ids@.skip(i as int)[0] == id);
            assert(ids@.skip(i as int).drop_first() =~= ids@.skip(i + 1));
            let found: Option<u64> = self.open_handle(id);
            self.entries.remove(&id);
            i += 1;
            if found.is_some() {
                return (i, found);
            }
        }
        assert(ids@.skip(i as int) =~= Seq::<u32>::empty());
        (i, None)
    }
}

#[derive(Clone, Copy, Debug, PartialEq, Eq, Structural)]
pub enum ResourceKind {
    Connection,
    Stream,
    Prepared,
    Appender,
}

/// All resources of the command line.
#[derive(Debug)]
pub struct Resources {
    pub next_id: u32,
    pub connections: ResourceTable,
    pub streams: ResourceTable,
    pub prepared: ResourceTable,
    pub appenders: ResourceTable,
}

/// The identifier after `id`. Zero is none.
pub open spec fn next_id_after(id: u32) -> u32 {
    if id == u32::MAX {
        1
    } else {
        (id + 1) as u32
    }
}

/// The handle of a known resource, or the error that names what is unknown.
pub open spec fn known(table: TableModel, id: u32, unknown: Seq<char>) -> Result<u64, ErrorModel> {
    if table.entries.contains_key(id) {
        Ok(table.entries[id].handle)
    } else {
        Err(ErrorModel::Internal(unknown))
    }
}

fn require_known(table: &ResourceTable, id: u32, unknown: &str) -> (r: Result<u64, Duckerror>)
    ensures
        match r {
            Ok(h) => known(table@, id, unknown@) == Ok::<u64, ErrorModel>(h),
            Err(e) => known(table@, id, unknown@) == Err::<u64, ErrorModel>(e@),
        },
{
    match table.handle(id) {
        Some(h) => Ok(h),
        None => Err(Duckerror::Internal(unknown.to_owned())),
    }
}

impl Resources {
    /// The next identifier is not zero.
    pub open spec fn wf(&self) -> bool {
        self.next_id != 0
    }

    pub fn new() -> (r: Resources)
        ensures
            r.wf(),
            r.next_id == 1,
            r.connections@ == (TableModel { entries: Map::empty(), pending: Seq::empty() }),
            r.streams@ == (TableModel { entries: Map::empty(), pending: Seq::empty() }),
            r.prepared@ == (TableModel { entries: Map::empty(), pending: Seq::empty() }),
            r.appenders@ == (TableModel { entries: Map::empty(), pending: Seq::empty() }),
    {
        Resources {
            next_id: 1,
            connections: ResourceTable::new(),
            streams: ResourceTable::new(),
            prepared: ResourceTable::new(),
            appenders: ResourceTable::new(),
        }
    }

    /// The next identifier. It is never zero.
    pub fn alloc_resource_id(&mut self) -> (r: u32)
        requires
            old(self).wf(),
        ensures
            r == old(self).next_id,
            r != 0,
            *final(self) == (Resources { next_id: next_id_after(r), ..*old(self) }),
            final(self).wf(),
    {
        let id: u32 = self.next_id;
        self.next_id = if id == u32::MAX {
            1
        } else {
            id + 1
        };
        id
    }

    /// Keeps a handle that the core has given out, and returns its identifier.
    pub fn keep(&mut self, kind: ResourceKind, handle: u64) -> (r: u32)
        requires
            old(self).wf(),
        ensures
            r == old(self).next_id,
            final(self).next_id == next_id_after(r),
            final(self).wf(),
            ({
                let added = |t: TableModel, k: ResourceKind|
                    if k == kind {
                        TableModel {
                            entries: t.entries.insert(r, Entry { handle, closed: false }),
                            ..t
                        }
                    } else {
                        t
                    };
                &&& final(self).connections@ == added(
                    old(self).connections@,
                    ResourceKind::Connection,
                )
                &&& final(self).streams@ == added(old(self).streams@, ResourceKind::Stream)
                &&& final(self).prepared@ == added(old(self).prepared@, ResourceKind::Prepared)
                &&& final(self).appenders@ == added(old(self).appenders@, ResourceKind::Appender)
            }),
    {
        let id: u32 = self.alloc_resource_id();
        match kind {
            ResourceKind::Connection => self.connections.insert(id, handle),
            ResourceKind::Stream => self.streams.insert(id, handle),
            ResourceKind::Prepared => self.prepared.insert(id, handle),
            ResourceKind::Appender => self.appenders.insert(id, handle),
        }
        id
    }

    /// The core's handle of a connection.
    pub fn connection(&self, id: u32) -> (r: Result<u64, Duckerror>)
        ensures
            match r {
                Ok(h) => known(self.connections@, id, "unknown connection"@) == Ok::<u64, ErrorModel>(h),
                Err(e) => known(self.connections@, id, "unknown connection"@)
                    == Err::<u64, ErrorModel>(e@),
            },
    {
        require_known(&self.connections, id, "unknown connection")
    }

    /// The core's handle of a result stream.
    pub fn stream(&self, id: u32) -> (r: Result<u64, Duckerror>)
        ensures
            match r {
                Ok(h) => known(self.streams@, id, "unknown stream"@) == Ok::<u64, ErrorModel>(h),
                Err(e) => known(self.streams@, id, "unknown stream"@) == Err::<u64, ErrorModel>(e@),
            },
    {
        require_known(&self.streams, id, "unknown stream")
    }

    /// The core's handle of a prepared statement.
    pub fn prepared_statement(&self, id: u32) -> (r: Result<u64, Duckerror>)
        ensures
            match r {
                Ok(h) => known(self.prepared@, id, "unknown prepared statement"@)
                    == Ok::<u64, ErrorModel>(h),
                Err(e) => known(self.prepared@, id, "unknown prepared statement"@)
                    == Err::<u64, ErrorModel>(e@),
            },
    {
        require_known(&self.prepared, id, "unknown prepared statement")
    }

    /// The core's handle of an appender.
    pub fn appender(&self, id: u32) -> (r: Result<u64, Duckerror>)
        ensures
            match r {
                Ok(h) => known(self.appenders@, id, "unknown appender"@) == Ok::<u64, ErrorModel>(h),
                Err(e) => known(self.appenders@, id, "unknown appender"@)
                    == Err::<u64, ErrorModel>(e@),
            },
    {
        require_known(&self.appenders, id, "unknown appender")
    }
}

// ---------------------------------------------------------------------------
// Dropping what was let go
// ---------------------------------------------------------------------------

/// The resources of all kinds, by their views.
#[verifier::ext_equal]
pub struct ResourcesModel {
    pub next_id: u32,
    pub connections: TableModel,
    pub streams: TableModel,
    pub prepared: TableModel,
    pub appenders: TableModel,
}

impl View for Resources {
    type V = ResourcesModel;

    open spec fn view(&self) -> ResourcesModel {
        ResourcesModel {
            next_id: self.next_id,
            connections: self.connections@,
            streams: self.streams@,
            prepared: self.prepared@,
            appenders: self.appenders@,
        }
    }
}

/// Where the dropping stands: the kind, and the identifiers of that kind that are left.
#[derive(Debug)]
pub struct DropRun {
    pub kind: ResourceKind,
    pub ids: Vec<u32>,
    pub pos: usize,
}

impl DropRun {
    pub open spec fn wf(&self) -> bool {
        self.pos <= self.ids@.len()
    }

    /// The identifiers that are left.
    pub open spec fn left(&self) -> Seq<u32> {
        self.ids@.skip(self.pos as int)
    }
}

/// What to do next.
#[derive(Debug)]
pub enum DropAction {
    Drop { kind: ResourceKind, handle: u64 },
    Finish(Result<(), Duckerror>),
}

/// The state after a run of drops, the kind and the identifiers that are left, and the
/// drop that is due.
pub struct DropModel {
    pub after: ResourcesModel,
    pub kind: ResourceKind,
    pub left: Seq<u32>,
    pub due: Option<(ResourceKind, u64)>,
}

/// The table without noted identifiers.
pub open spec fn taken(t: TableModel) -> TableModel {
    TableModel { pending: Seq::empty(), ..t }
}

pub open spec fn drop_appenders(m: ResourcesModel, ids: Seq<u32>) -> DropModel {
    let (entries, left, due) = first_drop(m.appenders.entries, ids);
    DropModel {
        after: ResourcesModel { appenders: TableModel { entries, ..m.appenders }, ..m },
        kind: ResourceKind::Appender,
        left,
        due: match due {
            Some(h) => Some((ResourceKind::Appender, h)),
            None => None,
        },
    }
}

pub open spec fn drop_prepared(m: ResourcesModel, ids: Seq<u32>) -> DropModel {
    let (entries, left, due) = first_drop(m.prepared.entries, ids);
    let after = ResourcesModel { prepared: TableModel { entries, ..m.prepared }, ..m };
    match due {
        Some(h) => DropModel {
            after,
            kind: ResourceKind::Prepared,
            left,
            due: Some((ResourceKind::Prepared, h)),
        },
        None => drop_appenders(
            ResourcesModel { appenders: taken(m.appenders), ..after },
            m.appenders.pending,
        ),
    }
}

pub open spec fn drop_streams(m: ResourcesModel, ids: Seq<u32>) -> DropModel {
    let (entries, left, due) = first_drop(m.streams.entries, ids);
    let after = ResourcesModel { streams: TableModel { entries, ..m.streams }, ..m };
    match due {
        Some(h) => DropModel {
            after,
            kind: ResourceKind::Stream,
            left,
            due: Some((ResourceKind::Stream, h)),
        },
        None => drop_prepared(
            ResourcesModel { prepared: taken(m.prepared), ..after },
            m.prepared.pending,
        ),
    }
}

pub open spec fn drop_connections(m: ResourcesModel, ids: Seq<u32>) -> DropModel {
    let (entries, left, due) = first_drop(m.connections.entries, ids);
    let after = ResourcesModel { connections: TableModel { entries, ..m.connections }, ..m };
    match due {
        Some(h) => DropModel {
            after,
            kind: ResourceKind::Connection,
            left,
            due: Some((ResourceKind::Connection, h)),
        },
        None => drop_streams(
            ResourcesModel { streams: taken(m.streams), ..after },
            m.streams.pending,
        ),
    }
}

/// The drops go on with the identifiers of one kind, then with the kinds behind it:
/// connections, streams, prepared statements, appenders.
pub open spec fn drops_from(m: ResourcesModel, kind: ResourceKind, ids: Seq<u32>) -> DropModel {
    match kind {
        ResourceKind::Connection => drop_connections(m, ids),
        ResourceKind::Stream => drop_streams(m, ids),
        ResourceKind::Prepared => drop_prepared(m, ids),
        ResourceKind::Appender => drop_appenders(m, ids),
    }
}

/// The outcome of a step is the one that the model gives.
pub open spec fn drop_goes(d: DropModel, after: ResourcesModel, run: DropRun, action: DropAction) -> bool {
    &&& after == d.after
    &&& run.wf()
    &&& run.kind == d.kind
    &&& run.left() == d.left
    &&& match d.due {
        Some((kind, handle)) => action == (DropAction::Drop { kind, handle }),
        None => action == DropAction::Finish(Ok(())),
    }
}

impl Resources {
    /// Begins to drop what the command line has let go.
    pub fn begin_drops(&mut self) -> (r: (DropRun, DropAction))
        ensures
            drop_goes(
                drop_connections(
                    ResourcesModel { connections: taken(old(self)@.connections), ..old(self)@ },
                    old(self)@.connections.pending,
                ),
                final(self)@,
                r.0,
                r.1,
            ),
    {
        let ids = self.connections.take_pending();
        assert(ids@.skip(0) =~= ids@);
        self.go_on(DropRun { kind: ResourceKind::Connection, ids, pos: 0 })
    }

    fn go_on(&mut self, run: DropRun) -> (r: (DropRun, DropAction))
        requires
            run.wf(),
        ensures
            drop_goes(
                drops_from(old(self)@, run.kind, run.left()),
                final(self)@,
                r.0,
                r.1,
            ),
    {
        let mut run = run;
        if run.kind == ResourceKind::Connection {
            let (pos, due) = self.connections.next_drop(&run.ids, run.pos);
            if let Some(handle) = due {
                return (
                    DropRun { kind: ResourceKind::Connection, ids: run.ids, pos },
                    DropAction::Drop { kind: ResourceKind::Connection, handle },
                );
            }
            let ids = self.streams.take_pending();
            assert(ids@.skip(0) =~= ids@);
            run = DropRun { kind: ResourceKind::Stream, ids, pos: 0 };
        }
        if run.kind == ResourceKind::Stream {
            let (pos, due) = self.streams.next_drop(&run.ids, run.pos);
            if let Some(handle) = due {
                return (
                    DropRun { kind: ResourceKind::Stream, ids: run.ids, pos },
                    DropAction::Drop { kind: ResourceKind::Stream, handle },
                );
            }
            let ids = self.prepared.take_pending();
            assert(ids@.skip(0) =~= ids@);
            run = DropRun { kind: ResourceKind::Prepared, ids, pos: 0 };
        }
        if run.kind == ResourceKind::Prepared {
            let (pos, due) = self.prepared.next_drop(&run.ids, run.pos);
            if let Some(handle) = due {
                return (
                    DropRun { kind: ResourceKind::Prepared, ids: run.ids, pos },
                    DropAction::Drop { kind: ResourceKind::Prepared, handle },
                );
            }
            let ids = self.appenders.take_pending();
            assert(ids@.skip(0) =~= ids@);
            run = DropRun { kind: ResourceKind::Appender, ids, pos: 0 };
        }
        let (pos, due) = self.appenders.next_drop(&run.ids, run.pos);
        let run = DropRun { kind: ResourceKind::Appender, ids: run.ids, pos };
        match due {
            Some(handle) => (run, DropAction::Drop { kind: ResourceKind::Appender, handle }),
            None => (run, DropAction::Finish(Ok(()))),
        }
    }

    /// Goes on with the drops after the core has answered. A failure ends them.
    pub fn drain_pending_resource_drops(&mut self, run: DropRun, reply: Result<(), String>) -> (r: (
        DropRun,
        DropAction,
    ))
        requires
            run.wf(),
        ensures
            match reply {
                Ok(_) => drop_goes(
                    drops_from(old(self)@, run.kind, run.left()),
                    final(self)@,
                    r.0,
                    r.1,
                ),
                Err(text) => {
                    &&& *final(self) == *old(self)
                    &&& r.0 == run
                    &&& r.1 matches DropAction::Finish(Err(e)) && e@ == ErrorModel::Internal(text@)
                },
            },
    {
        match reply {
            Ok(_) => self.go_on(run),
            Err(text) => (run, DropAction::Finish(Err(Duckerror::Internal(text)))),
        }
    }
}

// ---------------------------------------------------------------------------
// What the core answers
// ---------------------------------------------------------------------------

/// Keeps a connection that the core has opened, and notes for a second core what it was
/// opened on.
pub fn connection_opened(
    resources: &mut Resources,
    sibling: &mut Option<SiblingState>,
    handle: u64,
    path: Option<&str>,
) -> (r: u32)
    requires
        old(resources).wf(),
    ensures
        r == old(resources).next_id,
        final(resources).wf(),
        final(resources)@ == (ResourcesModel {
            next_id: next_id_after(r),
            connections: TableModel {
                entries: old(resources)@.connections.entries.insert(
                    r,
                    Entry { handle, closed: false },
                ),
                ..old(resources)@.connections
            },
            ..old(resources)@
        }),
        match (*old(sibling), *final(sibling)) {
            (None, None) => true,
            (Some(a), Some(b)) => {
                &&& b.loaded_extensions == a.loaded_extensions
                &&& b.primary_db_path matches Some(p) && view_opt(p) == shared_path(
                    match path {
                        Some(x) => Some(x@),
                        None => None,
                    },
                )
            },
            _ => false,
        },
{
    if let Some(s) = sibling {
        s.record_primary_open(sanitize_sibling_open_path(path));
    }
    resources.keep(ResourceKind::Connection, handle)
}

/// The core's answer to a request for the next rows of a stream.
#[derive(Debug)]
pub enum StreamReply {
    Rows(Option<Vec<Vec<core_types::Duckvalue>>>),
    Failed(core_types::Duckerror),
    Trapped(String),
}

/// The next rows of a stream for the command line; none at its end.
pub fn next_rows(reply: StreamReply) -> (r: Result<Option<Vec<Vec<Duckvalue>>>, Duckerror>)
    ensures
        match reply {
            StreamReply::Rows(Some(rows)) => r matches Ok(Some(out)) && rows_of(out@) == rows_of(
                rows@,
            ),
            StreamReply::Rows(None) => r matches Ok(None),
            StreamReply::Failed(e) => r matches Err(f) && f@ == e@,
            StreamReply::Trapped(t) => r matches Err(f) && f@ == ErrorModel::Internal(t@),
        },
{
    match reply {
        StreamReply::Rows(Some(rows)) => {
            let mut out: Vec<Vec<Duckvalue>> = Vec::new();
            for row in it: rows
                invariant
                    it.seq() == rows@,
                    out@.len() == it.index(),
                    forall|i: int|
                        0 <= i < out@.len() ==> views((#[trigger] out@[i])@) == views(rows@[i]@),
            {
                out.push(convert_core_row(row));
            }
            assert(rows_of(out@) =~= rows_of(rows@));
            Ok(Some(out))
        },
        StreamReply::Rows(None) => Ok(None),
        StreamReply::Failed(e) => Err(convert_core_duckerror(e)),
        StreamReply::Trapped(t) => Err(Duckerror::Internal(t)),
    }
}

// ---------------------------------------------------------------------------
// Laws
// ---------------------------------------------------------------------------

/// Identifiers are handed out one after the other and start over at one; zero is never
/// among them.
pub proof fn law_identifiers_are_never_zero(id: u32)
    ensures
        next_id_after(id) != 0,
        id < u32::MAX ==> next_id_after(id) == id + 1,
{
}

/// Letting identifiers go touches no other resource, drops only what is known and not
/// closed, and drops nothing twice: what is due is gone from the table. When nothing is
/// due, all of them are gone.
pub proof fn law_drops_are_exact(entries: Map<u32, Entry>, ids: Seq<u32>)
    ensures
        ({
            let (after, left, due) = first_drop(entries, ids);
            &&& forall|id: u32| #[trigger]
                after.contains_key(id) ==> entries.contains_key(id) && after[id] == entries[id]
            &&& forall|id: u32|
                entries.contains_key(id) && !ids.contains(id) ==> #[trigger] after.contains_key(id)
            &&& match due {
                Some(h) => exists|k: int|
                    0 <= k < ids.len() && entries.contains_key(#[trigger] ids[k])
                        && !entries[ids[k]].closed && entries[ids[k]].handle == h
                        && !after.contains_key(ids[k]) && left == ids.skip(k + 1),
                None => left.len() == 0 && forall|k: int|
                    0 <= k < ids.len() ==> !after.contains_key(#[trigger] ids[k]),
            }
        }),
    decreases ids.len(),
{
    if ids.len() > 0 {
        let id0 = ids[0];
        let rest = ids.drop_first();
        if entries.contains_key(id0) && !entries[id0].closed {
            assert(ids.skip(1) =~= rest);
            assert(!entries.remove(id0).contains_key(ids[0]));
            assert forall|id: u32| entries.contains_key(id) && !ids.contains(id) implies entries.remove(
                id0,
            ).contains_key(id) by {
                assert(ids.contains(id0));
            }
        } else {
            let smaller = entries.remove(id0);
            law_drops_are_exact(smaller, rest);
            let (after, left, due) = first_drop(smaller, rest);
            assert forall|id: u32| entries.contains_key(id) && !ids.contains(id) implies #[trigger] after.contains_key(
            id) by {
                assert(ids[0] == id0);
                if rest.contains(id) {
                    let k = choose|k: int| 0 <= k < rest.len() && rest[k] == id;
                    assert(ids[k + 1] == id);
                }
                assert(smaller.contains_key(id));
            }
            match due {
                Some(h) => {
                    let k = choose|k: int|
                        0 <= k < rest.len() && smaller.contains_key(#[trigger] rest[k])
                            && !smaller[rest[k]].closed && smaller[rest[k]].handle == h
                            && !after.contains_key(rest[k]) && left == rest.skip(k + 1);
                    assert(ids[k + 1] == rest[k]);
                    assert(ids.skip(k + 2) =~= rest.skip(k + 1));
                },
                None => {
                    assert forall|k: int| 0 <= k < ids.len() implies !after.contains_key(
                        #[trigger] ids[k],
                    ) by {
                        if k > 0 {
                            assert(rest[k - 1] == ids[k]);
                        } else {
                            assert(!smaller.contains_key(id0));
                        }
                    }
                },
            }
        }
    }
}

/// When the drops have finished, nothing is noted for dropping any more.
pub proof fn law_finished_drops_leave_nothing_noted(m: ResourcesModel)
    ensures
        ({
            let d = drop_connections(
                ResourcesModel { connections: taken(m.connections), ..m },
                m.connections.pending,
            );
            d.due is None ==> {
                &&& d.left.len() == 0
                &&& d.after.connections.pending.len() == 0
                &&& d.after.streams.pending.len() == 0
                &&& d.after.prepared.pending.len() == 0
                &&& d.after.appenders.pending.len() == 0
            }
        }),
{
    law_drops_are_exact(m.connections.entries, m.connections.pending);
    law_drops_are_exact(m.streams.entries, m.streams.pending);
    law_drops_are_exact(m.prepared.entries, m.prepared.pending);
    law_drops_are_exact(m.appenders.entries, m.appenders.pending);
}

/// Identifiers start again at one behind the largest.
pub proof fn law_identifiers_go_round()
    ensures
        next_id_after(0xFFFF_FFFF) == 1,
        forall|id: u32| id < 0xFFFF_FFFF ==> #[trigger] next_id_after(id) == id + 1,
{
}

/// A resource is found by its identifier under the handle that it was kept with.
pub proof fn law_resource_is_found(table: TableModel, id: u32, handle: u64, unknown: Seq<char>)
    ensures
        known(
            TableModel { entries: table.entries.insert(id, Entry { handle, closed: false }), ..table },
            id,
            unknown,
        ) == Ok::<u64, ErrorModel>(handle),
        !table.entries.contains_key(id) ==> known(table, id, unknown) == Err::<u64, ErrorModel>(
            ErrorModel::Internal(unknown),
        ),
{
}

/// The drops go in the order in which they were noted: what stands before the one that is
/// due was closed already or is not known.
pub proof fn law_drops_keep_their_order(entries: Map<u32, Entry>, ids: Seq<u32>)
    requires
        ids.no_duplicates(),
    ensures
        ({
            let (after, left, due) = first_drop(entries, ids);
            let passed = ids.len() - left.len();
            &&& 0 <= passed <= ids.len()
            &&& left == ids.skip(passed)
            &&& forall|k: int|
                0 <= k < passed - (if due is Some { 1int } else { 0 }) ==> !entries.contains_key(
                    #[trigger] ids[k],
                ) || entries[ids[k]].closed
            &&& due matches Some(h) ==> passed > 0 && entries.contains_key(ids[passed - 1])
                && !entries[ids[passed - 1]].closed && entries[ids[passed - 1]].handle == h
        }),
    decreases ids.len(),
{
    if ids.len() > 0 && !(entries.contains_key(ids[0]) && !entries[ids[0]].closed) {
        let rest = ids.drop_first();
        let less = entries.remove(ids[0]);
        assert(rest.no_duplicates()) by {
            assert forall|i: int, j: int| 0 <= i < rest.len() && 0 <= j < rest.len() && i != j implies rest[i]
                != rest[j] by {
                assert(rest[i] == ids[i + 1] && rest[j] == ids[j + 1]);
            }
        }
        law_drops_keep_their_order(less, rest);
        let (after, left, due) = first_drop(entries, ids);
        let passed = ids.len() - left.len();
        assert(ids.skip(passed) =~= rest.skip(passed - 1));
        assert forall|k: int|
            0 <= k < passed - (if due is Some { 1int } else { 0 }) implies !entries.contains_key(
            #[trigger] ids[k],
        ) || entries[ids[k]].closed by {
            if k > 0 {
                assert(rest[k - 1] == ids[k]);
                assert(ids[k] != ids[0]);
            }
        }
        if due is Some {
            assert(rest[passed - 2] == ids[passed - 1]);
            assert(ids[passed - 1] != ids[0]);
        }
    } else if ids.len() > 0 {
        assert(ids.drop_first() =~= ids.skip(1));
    } else {
        assert(ids.skip(0) =~= ids);
    }
}

/// What is due is a handle of the kind that it is said to be, and connections go before
/// streams, streams before prepared statements and these before appenders.
pub proof fn law_drops_go_kind_by_kind(m: ResourcesModel, ids: Seq<u32>)
    ensures
        ({
            let d = drop_connections(m, ids);
            &&& d.due matches Some((kind, _)) ==> kind == d.kind
            &&& d.due matches Some((ResourceKind::Connection, h)) ==> exists|id: u32| #[trigger]
                m.connections.entries.contains_key(id) && !m.connections.entries[id].closed
                    && m.connections.entries[id].handle == h
            &&& d.due matches Some((ResourceKind::Stream, h)) ==> exists|id: u32| #[trigger]
                m.streams.entries.contains_key(id) && !m.streams.entries[id].closed
                    && m.streams.entries[id].handle == h
            &&& d.due matches Some((ResourceKind::Prepared, h)) ==> exists|id: u32| #[trigger]
                m.prepared.entries.contains_key(id) && !m.prepared.entries[id].closed
                    && m.prepared.entries[id].handle == h
            &&& d.due matches Some((ResourceKind::Appender, h)) ==> exists|id: u32| #[trigger]
                m.appenders.entries.contains_key(id) && !m.appenders.entries[id].closed
                    && m.appenders.entries[id].handle == h
            &&& first_drop(m.connections.entries, ids).2 is Some ==> d.kind == ResourceKind::Connection
            &&& first_drop(m.connections.entries, ids).2 is None && first_drop(
                m.streams.entries,
                m.streams.pending,
            ).2 is Some ==> d.kind == ResourceKind::Stream
            &&& first_drop(m.connections.entries, ids).2 is None && first_drop(
                m.streams.entries,
                m.streams.pending,
            ).2 is None && first_drop(m.prepared.entries, m.prepared.pending).2 is Some ==> d.kind
                == ResourceKind::Prepared
        }),
{
    law_drops_are_exact(m.connections.entries, ids);
    law_drops_are_exact(m.streams.entries, m.streams.pending);
    law_drops_are_exact(m.prepared.entries, m.prepared.pending);
    law_drops_are_exact(m.appenders.entries, m.appenders.pending);
}

/// The drops go on with the kind that they have reached: what is due there is dropped first,
/// and the kinds before it are left alone.
pub proof fn law_drops_go_on_with_their_kind(m: ResourcesModel, kind: ResourceKind, ids: Seq<u32>)
    ensures
        ({
            let d = drops_from(m, kind, ids);
            let entries = match kind {
                ResourceKind::Connection => m.connections.entries,
                ResourceKind::Stream => m.streams.entries,
                ResourceKind::Prepared => m.prepared.entries,
                ResourceKind::Appender => m.appenders.entries,
            };
            &&& first_drop(entries, ids).2 matches Some(h) ==> d.due == Some((kind, h)) && d.kind == kind
                && d.left == first_drop(entries, ids).1
            &&& d.after.next_id == m.next_id
            &&& !(kind is Connection) ==> d.after.connections == m.connections
            &&& kind is Prepared || kind is Appender ==> d.after.streams == m.streams
            &&& kind is Appender ==> d.after.prepared == m.prepared
            &&& kind is Appender && first_drop(entries, ids).2 is None ==> d.due is None
        }),
{
}

/// A handle that is due is dropped, and the drops end well where none is.
pub proof fn law_due_handle_is_dropped(
    d: DropModel,
    after: ResourcesModel,
    run: DropRun,
    action: DropAction,
)
    requires
        drop_goes(d, after, run, action),
    ensures
        after == d.after,
        run.kind == d.kind,
        run.ids@.skip(run.pos as int) == d.left,
        match (d.due, action) {
            (Some((k, h)), DropAction::Drop { kind, handle }) => kind == k && handle == h,
            (None, DropAction::Finish(Ok(_))) => true,
            _ => false,
        },
{
}

} // verus!
