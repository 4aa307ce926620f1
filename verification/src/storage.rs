//! What the storage backend of an attached catalog is asked for.
use crate::extension_types::{Columndef, Duckerror, Duckvalue};
use crate::manager::{wrap, ExtensionManager};
use crate::model::ErrorModel;
use crate::transaction::{txn_next, txn_step, TxnAction, TxnEvent, TxnState};
use vstd::prelude::*;

verus! {

/// A write to a table of an attached catalog.
#[derive(Debug)]
pub enum WriteJob {
    Insert { table: String, rows: Vec<Vec<Duckvalue>> },
    Update { table: String, rowids: Vec<i64>, rows: Vec<Vec<Duckvalue>> },
    Delete { table: String, rowids: Vec<i64> },
    CreateTable { table: String, columns: Vec<Columndef> },
}

/// A request to the storage backend.
#[derive(Debug)]
pub enum StorageRequest {
    /// Open a catalog. The bytes are those of the file that the DSN names, if it names
    /// one.
    Attach { dsn: String, bytes: Vec<u8> },
    ListTables { catalog: u32 },
    TableColumns { catalog: u32, table: String },
    Serialize { catalog: u32 },
    WritesPersistDirectly,
    Begin { catalog: u32 },
    Write { txn: u32, job: WriteJob },
    Commit { txn: u32 },
    Rollback { txn: u32 },
}

/// A request with the extension that is to answer it, and the callback handle of its
/// backend.
#[derive(Debug)]
pub struct StorageCall {
    pub extension: String,
    pub handle: u32,
    pub request: StorageRequest,
}

/// A catalog that was opened: the extension that opened it, the callback handle of its
/// backend, and the handle that the extension gave.
#[derive(Debug)]
pub struct Target {
    pub extension: String,
    pub handle: u32,
    pub catalog: u32,
}

pub fn copy_target(t: &Target) -> (r: Target)
    ensures
        r == *t,
{
    Target { extension: t.extension.clone(), handle: t.handle, catalog: t.catalog }
}

/// Why an extension cannot be asked.
pub open spec fn not_loaded(extension: Seq<char>) -> ErrorModel {
    ErrorModel::Invalidstate("storage extension '"@ + extension + "' not loaded"@)
}

/// The call is the request, on its way to the given extension and handle; there is none
/// where the extension is not loaded.
pub open spec fn is_call(
    m: ExtensionManager,
    extension: String,
    handle: u32,
    request: StorageRequest,
    r: Result<StorageCall, Duckerror>,
) -> bool {
    if m.loaded@.contains_key(extension@) {
        r == Ok::<StorageCall, Duckerror>(StorageCall { extension, handle, request })
    } else {
        r matches Err(f) && f@ == not_loaded(extension@)
    }
}

impl ExtensionManager {
    fn storage_call(&self, extension: String, handle: u32, request: StorageRequest) -> (r: Result<
        StorageCall,
        Duckerror,
    >)
        ensures
            is_call(*self, extension, handle, request, r),
    {
        if self.loaded.contains(extension.as_str()) {
            Ok(StorageCall { extension, handle, request })
        } else {
            Err(
                Duckerror::Invalidstate(
                    wrap("storage extension '", extension.as_str(), "' not loaded"),
                ),
            )
        }
    }

    /// Asks an extension to open a catalog, given the bytes of the file that the DSN names
    /// or why they could not be read.
    pub fn dispatch_storage_attach(
        &self,
        extension: String,
        handle: u32,
        dsn: String,
        bytes: Result<Vec<u8>, String>,
    ) -> (r: Result<StorageCall, Duckerror>)
        ensures
            match bytes {
                Ok(bytes) => is_call(
                    *self,
                    extension,
                    handle,
                    StorageRequest::Attach { dsn, bytes },
                    r,
                ),
                Err(e) => r matches Err(f) && f@ == ErrorModel::Io(
                    "cannot read attach file '"@ + dsn@ + "': "@ + e@,
                ),
            },
    {
        match bytes {
            Ok(bytes) => self.storage_call(extension, handle, StorageRequest::Attach { dsn, bytes }),
            Err(e) => {
                let mut m = wrap("cannot read attach file '", dsn.as_str(), "': ");
                m.append(e.as_str());
                Err(Duckerror::Io(m))
            },
        }
    }

    /// Asks for the tables of a catalog.
    pub fn dispatch_storage_list_tables(&self, target: Target) -> (r: Result<StorageCall, Duckerror>)
        ensures
            is_call(
                *self,
                target.extension,
                target.handle,
                StorageRequest::ListTables { catalog: target.catalog },
                r,
            ),
    {
        let request = StorageRequest::ListTables { catalog: target.catalog };
        self.storage_call(target.extension, target.handle, request)
    }

    /// Asks for the columns of a table.
    pub fn dispatch_storage_table_columns(&self, target: Target, table: String) -> (r: Result<
        StorageCall,
        Duckerror,
    >)
        ensures
            is_call(
                *self,
                target.extension,
                target.handle,
                StorageRequest::TableColumns { catalog: target.catalog, table },
                r,
            ),
    {
        let request = StorageRequest::TableColumns { catalog: target.catalog, table };
        self.storage_call(target.extension, target.handle, request)
    }

    /// Asks for the bytes of a catalog.
    pub fn dispatch_storage_serialize(&self, target: Target) -> (r: Result<StorageCall, Duckerror>)
        ensures
            is_call(
                *self,
                target.extension,
                target.handle,
                StorageRequest::Serialize { catalog: target.catalog },
                r,
            ),
    {
        let request = StorageRequest::Serialize { catalog: target.catalog };
        self.storage_call(target.extension, target.handle, request)
    }

    /// Asks whether a backend makes writes durable by itself.
    pub fn dispatch_storage_writes_persist_directly(&self, extension: String, handle: u32) -> (r:
        Result<StorageCall, Duckerror>)
        ensures
            is_call(*self, extension, handle, StorageRequest::WritesPersistDirectly, r),
    {
        self.storage_call(extension, handle, StorageRequest::WritesPersistDirectly)
    }
}

// ---------------------------------------------------------------------------
// A write in a transaction of its own
// ---------------------------------------------------------------------------

/// Where a write stands. The job is there until it is handed to the backend.
#[derive(Debug)]
pub struct StorageWrite {
    pub target: Target,
    pub job: Option<WriteJob>,
    pub state: TxnState,
}

/// What to do next.
#[derive(Debug)]
pub enum StorageAction {
    Ask(StorageCall),
    /// The number of rows that were written, or why the write failed.
    Finish(Result<u64, Duckerror>),
    /// The event does not belong to the state; nothing is to be done.
    Ignore,
}

/// How a write begins: with a transaction.
pub open spec fn write_starts(
    m: ExtensionManager,
    target: Target,
    job: WriteJob,
    write: StorageWrite,
    action: StorageAction,
) -> bool {
    if m.loaded@.contains_key(target.extension@) {
        &&& write == (StorageWrite { target, job: Some(job), state: TxnState::Beginning })
        &&& action == StorageAction::Ask(
            StorageCall {
                extension: target.extension,
                handle: target.handle,
                request: StorageRequest::Begin { catalog: target.catalog },
            },
        )
    } else {
        &&& write.state is Finished
        &&& action matches StorageAction::Finish(Err(f)) && f@ == not_loaded(target.extension@)
    }
}

/// The request goes to the backend; where there is none the write has failed, with the
/// error of the write itself if that has failed already.
pub open spec fn asks(
    m: ExtensionManager,
    target: Target,
    request: StorageRequest,
    job: Option<WriteJob>,
    state: TxnState,
    after: StorageWrite,
    action: StorageAction,
) -> bool {
    if m.loaded@.contains_key(target.extension@) {
        &&& after == (StorageWrite { target, job, state })
        &&& action == StorageAction::Ask(
            StorageCall { extension: target.extension, handle: target.handle, request },
        )
    } else {
        &&& after.state is Finished
        &&& action matches StorageAction::Finish(Err(f)) && f@ == (match state {
            TxnState::RollingBack { err } => err@,
            _ => not_loaded(target.extension@),
        })
    }
}

/// One step of a write.
pub open spec fn storage_next(
    m: ExtensionManager,
    write: StorageWrite,
    event: TxnEvent,
    after: StorageWrite,
    action: StorageAction,
) -> bool {
    let (state, due) = txn_next(write.state, event);
    match due {
        TxnAction::Work { txn } => asks(
            m,
            write.target,
            StorageRequest::Write { txn, job: write.job->0 },
            None,
            state,
            after,
            action,
        ),
        TxnAction::Commit { txn } => asks(
            m,
            write.target,
            StorageRequest::Commit { txn },
            write.job,
            state,
            after,
            action,
        ),
        TxnAction::Rollback { txn } => asks(
            m,
            write.target,
            StorageRequest::Rollback { txn },
            write.job,
            state,
            after,
            action,
        ),
        TxnAction::Finish(r) => {
            &&& after == (StorageWrite { state, ..write })
            &&& action == StorageAction::Finish(r)
        },
        TxnAction::Ignore => after == write && action is Ignore,
    }
}

impl StorageWrite {
    /// The job is there as long as it was not handed out.
    pub open spec fn wf(&self) -> bool {
        self.state is Beginning ==> self.job is Some
    }
}

impl ExtensionManager {
    fn begin_storage_write(&self, target: Target, job: WriteJob) -> (r: (StorageWrite, StorageAction))
        ensures
            write_starts(*self, target, job, r.0, r.1),
            r.0.wf(),
    {
        let request = StorageRequest::Begin { catalog: target.catalog };
        match self.storage_call(target.extension.clone(), target.handle, request) {
            Ok(call) => (
                StorageWrite { target, job: Some(job), state: TxnState::Beginning },
                StorageAction::Ask(call),
            ),
            Err(e) => (
                StorageWrite { target, job: Some(job), state: TxnState::Finished },
                StorageAction::Finish(Err(e)),
            ),
        }
    }

    /// Begins to insert rows.
    pub fn dispatch_storage_insert_direct(
        &self,
        target: Target,
        table: String,
        rows: Vec<Vec<Duckvalue>>,
    ) -> (r: (StorageWrite, StorageAction))
        ensures
            write_starts(*self, target, WriteJob::Insert { table, rows }, r.0, r.1),
            r.0.wf(),
    {
        self.begin_storage_write(target, WriteJob::Insert { table, rows })
    }

    /// Begins to replace rows.
    pub fn dispatch_storage_update_direct(
        &self,
        target: Target,
        table: String,
        rowids: Vec<i64>,
        rows: Vec<Vec<Duckvalue>>,
    ) -> (r: (StorageWrite, StorageAction))
        ensures
            write_starts(*self, target, WriteJob::Update { table, rowids, rows }, r.0, r.1),
            r.0.wf(),
    {
        self.begin_storage_write(target, WriteJob::Update { table, rowids, rows })
    }

    /// Begins to delete rows.
    pub fn dispatch_storage_delete_direct(&self, target: Target, table: String, rowids: Vec<i64>) -> (r:
        (StorageWrite, StorageAction))
        ensures
            write_starts(*self, target, WriteJob::Delete { table, rowids }, r.0, r.1),
            r.0.wf(),
    {
        self.begin_storage_write(target, WriteJob::Delete { table, rowids })
    }

    /// Begins to create a table.
    pub fn dispatch_storage_create_table_direct(
        &self,
        target: Target,
        table: String,
        columns: Vec<Columndef>,
    ) -> (r: (StorageWrite, StorageAction))
        ensures
            write_starts(*self, target, WriteJob::CreateTable { table, columns }, r.0, r.1),
            r.0.wf(),
    {
        self.begin_storage_write(target, WriteJob::CreateTable { table, columns })
    }

    fn ask(
        &self,
        target: Target,
        request: StorageRequest,
        job: Option<WriteJob>,
        state: TxnState,
    ) -> (r: (StorageWrite, StorageAction))
        requires
            !(state is Beginning),
        ensures
            asks(*self, target, request, job, state, r.0, r.1),
            r.0.wf(),
    {
        match self.storage_call(target.extension.clone(), target.handle, request) {
            Ok(call) => (StorageWrite { target, job, state }, StorageAction::Ask(call)),
            Err(e) => {
                let e = match state {
                    TxnState::RollingBack { err } => err,
                    _ => e,
                };
                (
                    StorageWrite { target, job, state: TxnState::Finished },
                    StorageAction::Finish(Err(e)),
                )
            },
        }
    }

    /// Takes one step of a write.
    pub fn storage_step(&self, write: StorageWrite, event: TxnEvent) -> (r: (
        StorageWrite,
        StorageAction,
    ))
        requires
            write.wf(),
        ensures
            storage_next(*self, write, event, r.0, r.1),
            r.0.wf(),
    {
        let StorageWrite { target, job, state } = write;
        let (state, due) = txn_step(state, event);
        match due {
            TxnAction::Work { txn } => match job {
                Some(j) => self.ask(target, StorageRequest::Write { txn, job: j }, None, state),
                None => (StorageWrite { target, job: None, state }, StorageAction::Ignore),
            },
            TxnAction::Commit { txn } => self.ask(target, StorageRequest::Commit { txn }, job, state),
            TxnAction::Rollback { txn } => self.ask(
                target,
                StorageRequest::Rollback { txn },
                job,
                state,
            ),
            TxnAction::Finish(r) => (StorageWrite { target, job, state }, StorageAction::Finish(r)),
            TxnAction::Ignore => (StorageWrite { target, job, state }, StorageAction::Ignore),
        }
    }
}

// ---------------------------------------------------------------------------
// Laws
// ---------------------------------------------------------------------------

/// Every request of a write goes to the extension and the handle that the write was begun
/// with.
pub proof fn law_write_stays_with_its_backend(
    m: ExtensionManager,
    write: StorageWrite,
    event: TxnEvent,
    after: StorageWrite,
    action: StorageAction,
)
    requires
        storage_next(m, write, event, after, action),
    ensures
        action matches StorageAction::Ask(call) ==> call.extension == write.target.extension
            && call.handle == write.target.handle && after.target == write.target,
{
}

/// A write begins a transaction on the catalog that it is for, and keeps its job until the
/// transaction has begun. Without the extension nothing begins.
pub proof fn law_write_begins_a_transaction(
    m: ExtensionManager,
    target: Target,
    job: WriteJob,
    write: StorageWrite,
    action: StorageAction,
)
    requires
        write_starts(m, target, job, write, action),
    ensures
        match action {
            StorageAction::Ask(call) => {
                &&& m.loaded@.contains_key(target.extension@)
                &&& call.extension == target.extension
                &&& call.handle == target.handle
                &&& call.request == (StorageRequest::Begin { catalog: target.catalog })
                &&& write.job == Some(job)
                &&& write.target == target
                &&& write.state is Beginning
            },
            StorageAction::Finish(Err(e)) => !m.loaded@.contains_key(target.extension@) && e@
                == ErrorModel::Invalidstate("storage extension '"@ + target.extension@ + "' not loaded"@),
            _ => false,
        },
{
}

/// In a transaction that has begun the job is done under its number; a job that was done is
/// committed and one that failed is rolled back, under the same number. The outcome is that
/// of the commit, or the error that the job failed with.
pub proof fn law_write_follows_its_transaction(
    m: ExtensionManager,
    write: StorageWrite,
    event: TxnEvent,
    after: StorageWrite,
    action: StorageAction,
)
    requires
        write.wf(),
        storage_next(m, write, event, after, action),
        m.loaded@.contains_key(write.target.extension@),
    ensures
        match (write.state, event) {
            (TxnState::Beginning, TxnEvent::Began(Ok(txn))) => (action matches StorageAction::Ask(call)
                && call.request == (StorageRequest::Write { txn, job: write.job->0 })) && after.state
                == (TxnState::Working { txn }),
            (TxnState::Beginning, TxnEvent::Began(Err(e))) => action == StorageAction::Finish(Err(e)),
            (TxnState::Working { txn }, TxnEvent::Worked(Ok(count))) => (action matches
                StorageAction::Ask(call) && call.request == (StorageRequest::Commit { txn }))
                && after.state == (TxnState::Committing { count }),
            (TxnState::Working { txn }, TxnEvent::Worked(Err(err))) => (action matches
                StorageAction::Ask(call) && call.request == (StorageRequest::Rollback { txn }))
                && after.state == (TxnState::RollingBack { err }),
            (TxnState::Committing { count }, TxnEvent::Ended(Ok(_))) => action
                == StorageAction::Finish(Ok(count)),
            (TxnState::Committing { .. }, TxnEvent::Ended(Err(e))) => action == StorageAction::Finish(
                Err(e),
            ),
            (TxnState::RollingBack { err }, TxnEvent::Ended(_)) => action == StorageAction::Finish(
                Err(err),
            ),
            _ => action is Ignore && after == write,
        },
{
}

/// A question goes to the backend that is asked, with the request as it is, provided that its
/// extension is loaded.
pub proof fn law_question_goes_to_its_backend(
    m: ExtensionManager,
    extension: String,
    handle: u32,
    request: StorageRequest,
    r: Result<StorageCall, Duckerror>,
)
    requires
        is_call(m, extension, handle, request, r),
    ensures
        match r {
            Ok(call) => m.loaded@.contains_key(extension@) && call.extension == extension && call.handle
                == handle && call.request == request,
            Err(e) => !m.loaded@.contains_key(extension@) && e@ == ErrorModel::Invalidstate(
                "storage extension '"@ + extension@ + "' not loaded"@,
            ),
        },
{
}

} // verus!
