//! Nested statements. A statement that an extension runs from within another goes to
//! the core that is already executing where that is possible, and otherwise to a
//! second core that is opened over the same database file.
use crate::core_types::{Duckerror, QueryResult};
use crate::ident::{build_load_sql, is_loadable, is_loadable_name, load_sql};
use crate::model::{message_of, rows_of, view_opt, views};
use crate::names::NameMap;
use crate::render::{
    affected_by, cell_text, query_result_to_nested_exec, render_table, table_texts,
    NestedExecResult,
};
use crate::text::{ascii_lowercase, contains, has_infix, lower, same_text, trim, trim_of};
use vstd::prelude::*;

verus! {

// ---------------------------------------------------------------------------
// Errors
// ---------------------------------------------------------------------------

/// The message of a core error.
pub fn core_duckerror_message(err: Duckerror) -> (r: String)
    ensures
        r@ == message_of(err@),
{
    match err {
        Duckerror::Invalidargument(m) => m,
        Duckerror::Unsupported(m) => m,
        Duckerror::Invalidstate(m) => m,
        Duckerror::Io(m) => m,
        Duckerror::Internal(m) => m,
    }
}

/// What is put before an error of the second core that a missing extension explains.
pub const NESTED_EXEC_DIRECTION2_REDIRECT: &'static str =
    "nested-exec (Direction 1): the sibling core does not have host extensions loaded.\n\
If this entry references a function provided by a loaded extension, run it under\n\
the native ducklink DuckDB extension (Direction 2) instead. Underlying error: ";

/// The message reads as if something was missing that an extension would provide: a
/// function that does not exist or does not match, or an extension that is named as
/// missing, required or not there.
pub open spec fn blames_extension(msg: Seq<char>) -> bool {
    let m = lower(msg);
    ||| has_infix(m, "does not exist"@) && has_infix(m, "function with name"@)
    ||| has_infix(m, "missing extension"@)
    ||| has_infix(m, "extension"@) && (has_infix(m, "not loaded"@) || has_infix(m, "not installed"@)
        || has_infix(m, "not found"@) || has_infix(m, "requires the"@))
    ||| has_infix(m, "no function matches"@)
}

pub fn is_extension_related_error(msg: &str) -> (r: bool)
    ensures
        r == blames_extension(msg@),
{
    let m = ascii_lowercase(msg);
    let m = m.as_str();
    if contains(m, "does not exist") && contains(m, "function with name") {
        return true;
    }
    if contains(m, "missing extension") {
        return true;
    }
    if contains(m, "extension") && (contains(m, "not loaded") || contains(m, "not installed")
        || contains(m, "not found") || contains(m, "requires the")) {
        return true;
    }
    contains(m, "no function matches")
}

// ---------------------------------------------------------------------------
// What is known of the first core
// ---------------------------------------------------------------------------

/// What the second core needs to know of the first.
#[derive(Debug)]
pub struct SiblingState {
    /// The database that the first core has opened: nothing yet, one in memory, or a
    /// file.
    pub primary_db_path: Option<Option<String>>,
    /// The extensions that the first core has loaded, in the order of loading.
    pub loaded_extensions: Vec<String>,
}

/// The path under which the second core opens the database of the first: none for a
/// database in memory.
pub open spec fn shared_path(primary: Option<Seq<char>>) -> Option<Seq<char>> {
    match primary {
        None => None,
        Some(p) => if p == ":memory:"@ || trim_of(p).len() == 0 {
            None
        } else {
            Some(p)
        },
    }
}

pub fn sanitize_sibling_open_path(primary: Option<&str>) -> (r: Option<String>)
    ensures
        view_opt(r) == shared_path(
            match primary {
                Some(p) => Some(p@),
                None => None,
            },
        ),
{
    match primary {
        None => None,
        Some(p) => {
            if same_text(p, ":memory:") || trim(p).is_empty() {
                None
            } else {
                Some(p.to_owned())
            }
        },
    }
}

impl SiblingState {
    pub fn new() -> (r: SiblingState)
        ensures
            r.primary_db_path is None,
            r.loaded_extensions@.len() == 0,
    {
        SiblingState { primary_db_path: None, loaded_extensions: Vec::new() }
    }

    /// Notes what the first core has opened.
    pub fn record_primary_open(&mut self, path: Option<String>)
        ensures
            final(self).primary_db_path == Some(path),
            final(self).loaded_extensions == old(self).loaded_extensions,
    {
        self.primary_db_path = Some(path);
    }

    /// Notes an extension that the first core has loaded, once.
    pub fn record_extension_loaded(&mut self, name: &str)
        ensures
            final(self).primary_db_path == old(self).primary_db_path,
            views(final(self).loaded_extensions@) == (if views(old(self).loaded_extensions@).contains(
                name@,
            ) {
                views(old(self).loaded_extensions@)
            } else {
                views(old(self).loaded_extensions@).push(name@)
            }),
    {
        let mut i: usize = 0;
        while i < self.loaded_extensions.len()
            invariant
                *self == *old(self),
                i <= self.loaded_extensions@.len(),
                forall|j: int| 0 <= j < i ==> (#[trigger] self.loaded_extensions@[j])@ != name@,
            decreases self.loaded_extensions@.len() - i,
        {
            if same_text(self.loaded_extensions[i].as_str(), name) {
                assert(views(self.loaded_extensions@)[i as int] == name@);
                return;
            }
            i += 1;
        }
        assert(!views(self.loaded_extensions@).contains(name@)) by {
            assert forall|j: int| 0 <= j < self.loaded_extensions@.len() implies views(
                self.loaded_extensions@,
            )[j] != name@ by {
                assert(self.loaded_extensions@[j]@ != name@);
            }
        }
        self.loaded_extensions.push(name.to_owned());
        assert(views(self.loaded_extensions@) =~= views(old(self).loaded_extensions@).push(name@));
    }
}

// ---------------------------------------------------------------------------
// A nested statement
// ---------------------------------------------------------------------------

/// Where a nested statement runs.
#[derive(Debug)]
pub enum NestedRoute {
    /// On the core that is executing already.
    Primary,
    /// On the second core, opened over this file.
    Sibling { path: String },
    /// Nowhere.
    Fail(String),
}

/// Where a nested statement runs, given whether the executing core can be entered
/// again and what is known of it.
pub fn begin_nested_exec(reentry: bool, sibling: Option<&SiblingState>) -> (r: NestedRoute)
    ensures
        if reentry {
            r is Primary
        } else {
            match sibling {
                None => r matches NestedRoute::Fail(m) && m@
                    == "nested-exec: sibling-core state not wired in this host (Direction-1 §5.(b.1) support requires SiblingState via ExtensionManager::attach_sibling_state)"@,
                Some(s) => match s.primary_db_path {
                    Some(Some(p)) => r matches NestedRoute::Sibling { path } && path@ == p@,
                    Some(None) => r matches NestedRoute::Fail(m) && m@
                        == "nested-exec: primary database is in-memory; Direction-1 sibling-core cannot share it. Open a file-backed database or use the native ducklink DuckDB extension (Direction 2)."@,
                    None => r matches NestedRoute::Fail(m) && m@
                        == "nested-exec: primary database not yet opened (Direction-1 sibling waits for HostState::open)"@,
                },
            }
        },
{
    if reentry {
        return NestedRoute::Primary;
    }
    match sibling {
        None => NestedRoute::Fail(
            "nested-exec: sibling-core state not wired in this host (Direction-1 §5.(b.1) support requires SiblingState via ExtensionManager::attach_sibling_state)".to_owned(),
        ),
        Some(s) => match &s.primary_db_path {
            Some(Some(p)) => NestedRoute::Sibling { path: p.clone() },
            Some(None) => NestedRoute::Fail(
                "nested-exec: primary database is in-memory; Direction-1 sibling-core cannot share it. Open a file-backed database or use the native ducklink DuckDB extension (Direction 2).".to_owned(),
            ),
            None => NestedRoute::Fail(
                "nested-exec: primary database not yet opened (Direction-1 sibling waits for HostState::open)".to_owned(),
            ),
        },
    }
}

/// The answer of a core to a statement.
#[derive(Debug)]
pub enum ExecReply {
    Rows(QueryResult),
    Failed(Duckerror),
    Trapped(String),
}

/// The rows of a result as an extension sees them.
pub open spec fn nested_rows(r: NestedExecResult, qr: crate::model::ResultModel) -> bool {
    &&& r.rows is Some
    &&& rows_of(r.rows->0@) == table_texts(qr.rows)
    &&& r.rows_affected == affected_by(qr.columns, qr.rows)
}

/// What a nested statement on the executing core hands back.
pub fn primary_nested_exec(reply: ExecReply) -> (r: Result<NestedExecResult, String>)
    ensures
        match reply {
            ExecReply::Rows(qr) => r matches Ok(n) && nested_rows(n, qr@),
            ExecReply::Failed(e) => r matches Err(m) && m@ == message_of(e@),
            ExecReply::Trapped(t) => r matches Err(m) && m@
                == "nested-exec: primary call_execute trapped: "@ + t@,
        },
{
    match reply {
        ExecReply::Rows(qr) => Ok(query_result_to_nested_exec(&qr)),
        ExecReply::Failed(e) => Err(core_duckerror_message(e)),
        ExecReply::Trapped(t) => {
            let mut m = "nested-exec: primary call_execute trapped: ".to_owned();
            m.append(t.as_str());
            Err(m)
        },
    }
}

/// What a nested statement on the second core hands back. An error that a missing
/// extension explains comes with the advice where to run the statement instead.
pub fn sibling_nested_exec(reply: ExecReply) -> (r: Result<NestedExecResult, String>)
    ensures
        match reply {
            ExecReply::Rows(qr) => r matches Ok(n) && nested_rows(n, qr@),
            ExecReply::Failed(e) => r matches Err(m) && m@ == (if blames_extension(message_of(e@)) {
                NESTED_EXEC_DIRECTION2_REDIRECT@ + message_of(e@)
            } else {
                message_of(e@)
            }),
            ExecReply::Trapped(t) => r matches Err(m) && m@
                == "nested-exec: sibling call_execute trapped: "@ + t@,
        },
{
    match reply {
        ExecReply::Rows(qr) => Ok(query_result_to_nested_exec(&qr)),
        ExecReply::Failed(e) => {
            let msg = core_duckerror_message(e);
            if is_extension_related_error(msg.as_str()) {
                let mut m = NESTED_EXEC_DIRECTION2_REDIRECT.to_owned();
                m.append(msg.as_str());
                Err(m)
            } else {
                Err(msg)
            }
        },
        ExecReply::Trapped(t) => {
            let mut m = "nested-exec: sibling call_execute trapped: ".to_owned();
            m.append(t.as_str());
            Err(m)
        },
    }
}

// ---------------------------------------------------------------------------
// Opening the second core
// ---------------------------------------------------------------------------

/// How far the second core is.
#[derive(Debug)]
pub enum SlotState {
    /// Its sandbox is being prepared.
    Preparing { path: String, shared: bool, replay: Option<String> },
    /// It is being instantiated.
    Instantiating { path: String, shared: bool, replay: Option<String> },
    /// It opens the database.
    Opening { replay: Option<String> },
    /// It loads one extension, so that it takes over the registrations of the first.
    Replaying { name: String },
    Ready,
    Failed,
}

#[derive(Debug)]
pub enum SlotEvent {
    Prepared(Result<(), String>),
    Instantiated(Result<(), String>),
    Opened(Result<(), String>),
    /// The call that opens did not complete.
    OpenTrapped(String),
    Replayed(ExecReply),
}

#[derive(Debug)]
pub enum SlotAction {
    Instantiate {
        /// The second core works with the extensions of the first.
        shared: bool,
    },
    /// Open the database. A core with extensions of its own is attached to them first.
    Open { path: String, attach_core: bool },
    Execute { sql: String },
    /// The second core can be used; this is to be noted in the log.
    Finish { note: Option<String> },
    Fail(String),
    Ignore,
}

/// The first extension that the first core has loaded.
pub open spec fn first_loaded(loaded: Seq<String>) -> Option<String> {
    if loaded.len() == 0 {
        None
    } else {
        Some(loaded[0])
    }
}

/// How the second core is opened: nothing is done if it is there already.
pub fn sibling_ensure_slot(
    ready: bool,
    path: &str,
    shared: bool,
    sibling: &SiblingState,
) -> (r: Option<SlotState>)
    ensures
        if ready {
            r is None
        } else {
            &&& r matches Some(SlotState::Preparing { path: p, shared: s, replay })
            &&& p@ == path@
            &&& s == shared
            &&& replay == first_loaded(sibling.loaded_extensions@)
        },
{
    if ready {
        return None;
    }
    let replay: Option<String> = if sibling.loaded_extensions.len() == 0 {
        None
    } else {
        Some(sibling.loaded_extensions[0].clone())
    };
    Some(SlotState::Preparing { path: path.to_owned(), shared, replay })
}

/// What is noted of the extension that is loaded to take over registrations.
pub open spec fn replay_note(name: Seq<char>, reply: ExecReply) -> Seq<char> {
    match reply {
        ExecReply::Rows(_) => "[sibling-replay] LOAD "@ + name
            + " on sibling primed get_pending_registrations from the shared archive"@,
        ExecReply::Failed(e) => "[sibling-replay] LOAD "@ + name + " on sibling returned duckerror: "@
            + message_of(e@) + " (registration replay may be partial)"@,
        ExecReply::Trapped(t) => "[sibling-replay] LOAD "@ + name + " on sibling trapped: "@ + t@
            + " (registration replay skipped)"@,
    }
}

/// The opening fails with the given text behind a fixed one.
pub open spec fn slot_fails(after: SlotState, action: SlotAction, m: Seq<char>) -> bool {
    after is Failed && (action matches SlotAction::Fail(e) && e@ == m)
}

/// One step of opening the second core. Once the database is open nothing fails any
/// more: an extension that cannot be loaded is noted and passed over.
pub open spec fn slot_next(state: SlotState, event: SlotEvent, after: SlotState, action: SlotAction) -> bool {
    match (state, event) {
        (SlotState::Preparing { path, shared, replay }, SlotEvent::Prepared(Ok(_))) => {
            &&& action == (SlotAction::Instantiate { shared })
            &&& after == (SlotState::Instantiating { path, shared, replay })
        },
        (SlotState::Preparing { .. }, SlotEvent::Prepared(Err(e))) => slot_fails(
            after,
            action,
            "nested-exec: sibling WASI ctx: "@ + e@,
        ),
        (SlotState::Instantiating { path, shared, replay }, SlotEvent::Instantiated(Ok(_))) => {
            &&& action == (SlotAction::Open { path, attach_core: !shared })
            &&& after == (SlotState::Opening { replay })
        },
        (SlotState::Instantiating { .. }, SlotEvent::Instantiated(Err(e))) => slot_fails(
            after,
            action,
            "nested-exec: sibling instantiate_core: "@ + e@,
        ),
        (SlotState::Opening { .. }, SlotEvent::OpenTrapped(t)) => slot_fails(
            after,
            action,
            "nested-exec: sibling call_open trapped: "@ + t@,
        ),
        (SlotState::Opening { .. }, SlotEvent::Opened(Err(e))) => slot_fails(
            after,
            action,
            "nested-exec: sibling open failed: "@ + e@,
        ),
        (SlotState::Opening { replay }, SlotEvent::Opened(Ok(_))) => match replay {
            None => after is Ready && action == (SlotAction::Finish { note: None }),
            Some(name) => if is_loadable(name@) {
                &&& action matches SlotAction::Execute { sql }
                &&& sql@ == load_sql(name@)
                &&& after == (SlotState::Replaying { name })
            } else {
                &&& after is Ready
                &&& action matches SlotAction::Finish { note }
                &&& view_opt(note) == Some(
                    "[sibling-replay] refusing to LOAD '"@ + name@ + "' on sibling (bad identifier)"@,
                )
            },
        },
        (SlotState::Replaying { name }, SlotEvent::Replayed(reply)) => {
            &&& after is Ready
            &&& action matches SlotAction::Finish { note }
            &&& view_opt(note) == Some(replay_note(name@, reply))
        },
        _ => after == state && action is Ignore,
    }
}

fn slot_failure(what: &str, e: &str) -> (r: (SlotState, SlotAction))
    ensures
        slot_fails(r.0, r.1, what@ + e@),
{
    let mut m = what.to_owned();
    m.append(e);
    (SlotState::Failed, SlotAction::Fail(m))
}

/// Takes the answer that came and says what is to be done next.
pub fn slot_step(state: SlotState, event: SlotEvent) -> (r: (SlotState, SlotAction))
    ensures
        slot_next(state, event, r.0, r.1),
{
    match (state, event) {
        (SlotState::Preparing { path, shared, replay }, SlotEvent::Prepared(Ok(_))) => (
            SlotState::Instantiating { path, shared, replay },
            SlotAction::Instantiate { shared },
        ),
        (SlotState::Preparing { .. }, SlotEvent::Prepared(Err(e))) => slot_failure(
            "nested-exec: sibling WASI ctx: ",
            e.as_str(),
        ),
        (SlotState::Instantiating { path, shared, replay }, SlotEvent::Instantiated(Ok(_))) => (
            SlotState::Opening { replay },
            SlotAction::Open { path, attach_core: !shared },
        ),
        (SlotState::Instantiating { .. }, SlotEvent::Instantiated(Err(e))) => slot_failure(
            "nested-exec: sibling instantiate_core: ",
            e.as_str(),
        ),
        (SlotState::Opening { .. }, SlotEvent::OpenTrapped(t)) => slot_failure(
            "nested-exec: sibling call_open trapped: ",
            t.as_str(),
        ),
        (SlotState::Opening { .. }, SlotEvent::Opened(Err(e))) => slot_failure(
            "nested-exec: sibling open failed: ",
            e.as_str(),
        ),
        (SlotState::Opening { replay }, SlotEvent::Opened(Ok(_))) => match replay {
            None => (SlotState::Ready, SlotAction::Finish { note: None }),
            Some(name) => {
                if is_loadable_name(name.as_str()) {
                    let sql = build_load_sql(name.as_str());
                    (SlotState::Replaying { name }, SlotAction::Execute { sql })
                } else {
                    let mut m = "[sibling-replay] refusing to LOAD '".to_owned();
                    m.append(name.as_str());
                    m.append("' on sibling (bad identifier)");
                    (SlotState::Ready, SlotAction::Finish { note: Some(m) })
                }
            },
        },
        (SlotState::Replaying { name }, SlotEvent::Replayed(reply)) => {
            let mut m = "[sibling-replay] LOAD ".to_owned();
            m.append(name.as_str());
            match reply {
                ExecReply::Rows(_) => {
                    m.append(" on sibling primed get_pending_registrations from the shared archive");
                },
                ExecReply::Failed(e) => {
                    m.append(" on sibling returned duckerror: ");
                    m.append(core_duckerror_message(e).as_str());
                    m.append(" (registration replay may be partial)");
                },
                ExecReply::Trapped(t) => {
                    m.append(" on sibling trapped: ");
                    m.append(t.as_str());
                    m.append(" (registration replay skipped)");
                },
            }
            (SlotState::Ready, SlotAction::Finish { note: Some(m) })
        },
        (state, _) => (state, SlotAction::Ignore),
    }
}

// ---------------------------------------------------------------------------
// The catalog snapshot
// ---------------------------------------------------------------------------

/// Recent answers to catalog queries, for the time while the core is busy.
#[derive(Debug)]
pub struct CatalogSnapshot {
    /// The rows of each query, as texts.
    pub rows: NameMap<Vec<Vec<String>>>,
    /// Some extension can make such queries.
    pub enabled: bool,
}

/// The queries that are kept up to date.
pub const CATALOG_TABLES_SQL: &'static str = "SELECT table_name FROM duckdb_tables()";

pub const CATALOG_COLUMNS_SQL: &'static str = "SELECT DISTINCT column_name FROM duckdb_columns()";

impl View for CatalogSnapshot {
    type V = Map<Seq<char>, Seq<Seq<Seq<char>>>>;

    open spec fn view(&self) -> Map<Seq<char>, Seq<Seq<Seq<char>>>> {
        self.rows@.map_values(|v: Vec<Vec<String>>| rows_of(v@))
    }
}

fn copy_texts(rows: &Vec<Vec<String>>) -> (r: Vec<Vec<String>>)
    ensures
        rows_of(r@) == rows_of(rows@),
{
    let mut out: Vec<Vec<String>> = Vec::new();
    let mut i: usize = 0;
    while i < rows.len()
        invariant
            i <= rows@.len(),
            out@.len() == i,
            forall|j: int| 0 <= j < i ==> views((#[trigger] out@[j])@) == views(rows@[j]@),
        decreases rows@.len() - i,
    {
        let mut row: Vec<String> = Vec::new();
        let mut k: usize = 0;
        while k < rows[i].len()
            invariant
                i < rows@.len(),
                k <= rows@[i as int]@.len(),
                row@.len() == k,
                forall|j: int| 0 <= j < k ==> (#[trigger] row@[j])@ == rows@[i as int]@[j]@,
            decreases rows@[i as int]@.len() - k,
        {
            row.push(rows[i][k].clone());
            k += 1;
        }
        assert(views(row@) =~= views(rows@[i as int]@));
        out.push(row);
        i += 1;
    }
    assert(rows_of(out@) =~= rows_of(rows@));
    out
}

impl CatalogSnapshot {
    pub fn new() -> (r: CatalogSnapshot)
        ensures
            r@ == Map::<Seq<char>, Seq<Seq<Seq<char>>>>::empty(),
            !r.enabled,
    {
        let r = CatalogSnapshot { rows: NameMap::new(), enabled: false };
        assert(r@ =~= Map::<Seq<char>, Seq<Seq<Seq<char>>>>::empty());
        r
    }

    /// The answer to a query while the core is busy.
    pub fn answer_busy(&self, sql: &str) -> (r: Result<Vec<Vec<String>>, String>)
        ensures
            match r {
                Ok(rows) => self@.contains_key(sql@) && rows_of(rows@) == self@[sql@],
                Err(m) => !self@.contains_key(sql@) && m@
                    == "query: core busy and no catalog snapshot for this SQL"@,
            },
    {
        match self.rows.get(sql) {
            Some(rows) => Ok(copy_texts(rows)),
            None => Err("query: core busy and no catalog snapshot for this SQL".to_owned()),
        }
    }

    /// Takes the answer that the idle core gave: it is handed on, and an answer with
    /// rows is remembered.
    pub fn answer_idle(&mut self, sql: &str, reply: ExecReply) -> (r: Result<Vec<Vec<String>>, String>)
        ensures
            final(self).enabled == old(self).enabled,
            match reply {
                ExecReply::Rows(qr) => {
                    &&& r matches Ok(rows)
                    &&& rows_of(rows@) == table_texts(qr@.rows)
                    &&& final(self)@ == old(self)@.insert(sql@, table_texts(qr@.rows))
                },
                ExecReply::Failed(e) => {
                    &&& r matches Err(m)
                    &&& m@ == message_of(e@)
                    &&& final(self)@ == old(self)@
                },
                ExecReply::Trapped(t) => {
                    &&& r matches Err(m)
                    &&& m@ == "query trapped: "@ + t@
                    &&& final(self)@ == old(self)@
                },
            },
    {
        match reply {
            ExecReply::Rows(qr) => {
                let rows = render_table(&qr.rows);
                let kept = copy_texts(&rows);
                self.rows.insert(sql.to_owned(), kept);
                assert(self@ =~= old(self)@.insert(sql@, table_texts(qr@.rows)));
                Ok(rows)
            },
            ExecReply::Failed(e) => Err(core_duckerror_message(e)),
            ExecReply::Trapped(t) => {
                let mut m = "query trapped: ".to_owned();
                m.append(t.as_str());
                Err(m)
            },
        }
    }

    /// The queries to run again after a statement: none while no extension can ask.
    pub fn refresh_queries(&self) -> (r: Vec<&'static str>)
        ensures
            !self.enabled ==> r@.len() == 0,
            self.enabled ==> r@ == seq![CATALOG_TABLES_SQL, CATALOG_COLUMNS_SQL],
    {
        let mut out: Vec<&'static str> = Vec::new();
        if self.enabled {
            out.push(CATALOG_TABLES_SQL);
            out.push(CATALOG_COLUMNS_SQL);
            assert(out@ =~= seq![CATALOG_TABLES_SQL, CATALOG_COLUMNS_SQL]);
        }
        out
    }
}

// ---------------------------------------------------------------------------
// Laws
// ---------------------------------------------------------------------------

/// A nested statement on the second core never reaches a database in memory, nor one
/// with a blank name.
pub proof fn law_memory_databases_are_not_shared(path: Seq<char>)
    ensures
        shared_path(None) is None,
        shared_path(Some(":memory:"@)) is None,
        trim_of(path).len() == 0 ==> shared_path(Some(path)) is None,
        shared_path(Some(path)) is Some ==> shared_path(Some(path)) == Some(path),
{
}

/// Opening the second core fails only before its database is open.
pub proof fn law_open_sibling_is_usable(
    state: SlotState,
    event: SlotEvent,
    after: SlotState,
    action: SlotAction,
)
    requires
        slot_next(state, event, after, action),
        state is Replaying || (state is Opening && event == SlotEvent::Opened(
            Ok::<(), String>(()),
        )),
    ensures
        !(action is Fail),
        !(after is Failed),
{
}

/// A message blames a missing extension, in any case, where it says that a function does
/// not exist or does not match, that an extension is missing, or that an extension is not
/// loaded, not installed, not found or required.
pub proof fn law_blaming_messages(msg: Seq<char>)
    ensures
        blames_extension(msg) == blames_extension(lower(msg)),
        has_infix(lower(msg), "missing extension"@) ==> blames_extension(msg),
        has_infix(lower(msg), "no function matches"@) ==> blames_extension(msg),
        has_infix(lower(msg), "function with name"@) && has_infix(lower(msg), "does not exist"@)
            ==> blames_extension(msg),
        has_infix(lower(msg), "extension"@) && has_infix(lower(msg), "not loaded"@) ==> blames_extension(
            msg,
        ),
        has_infix(lower(msg), "extension"@) && has_infix(lower(msg), "not installed"@)
            ==> blames_extension(msg),
        has_infix(lower(msg), "extension"@) && has_infix(lower(msg), "not found"@) ==> blames_extension(
            msg,
        ),
        has_infix(lower(msg), "extension"@) && has_infix(lower(msg), "requires the"@)
            ==> blames_extension(msg),
        !has_infix(lower(msg), "extension"@) && !has_infix(lower(msg), "no function matches"@)
            && !has_infix(lower(msg), "missing extension"@) && !(has_infix(
            lower(msg),
            "function with name"@,
        ) && has_infix(lower(msg), "does not exist"@)) ==> !blames_extension(msg),
{
    assert(lower(lower(msg)) =~= lower(msg));
}

/// A database in a file is shared under its very path.
pub proof fn law_file_databases_are_shared(path: Seq<char>)
    requires
        trim_of(path).len() > 0,
        path != ":memory:"@,
    ensures
        shared_path(Some(path)) == Some(path),
{
}

/// The second core is prepared, instantiated, opened over the same path and, where the first
/// core has extensions, made to load the first of them. Each step that fails is reported
/// under its name; after the opening nothing fails any more.
pub proof fn law_slot_goes_step_by_step(
    state: SlotState,
    event: SlotEvent,
    after: SlotState,
    action: SlotAction,
)
    requires
        slot_next(state, event, after, action),
    ensures
        match (state, event) {
            (SlotState::Preparing { path, shared, replay }, SlotEvent::Prepared(Ok(_))) => action == (
            SlotAction::Instantiate { shared }) && after == (SlotState::Instantiating {
                path,
                shared,
                replay,
            }),
            (SlotState::Instantiating { path, shared, replay }, SlotEvent::Instantiated(Ok(_))) => (
            action matches SlotAction::Open { path: p, attach_core } && p == path && attach_core
                != shared) && after == (SlotState::Opening { replay }),
            (SlotState::Opening { replay: Some(name) }, SlotEvent::Opened(Ok(_))) => match action {
                SlotAction::Execute { sql } => is_loadable(name@) && sql@ == "LOAD "@ + name@ + ";"@
                    && after == (SlotState::Replaying { name }),
                SlotAction::Finish { note: Some(n) } => !is_loadable(name@) && n@
                    == "[sibling-replay] refusing to LOAD '"@ + name@ + "' on sibling (bad identifier)"@
                    && after is Ready,
                _ => false,
            },
            (SlotState::Opening { replay: None }, SlotEvent::Opened(Ok(_))) => action == (
            SlotAction::Finish { note: None }) && after is Ready,
            (SlotState::Preparing { .. }, SlotEvent::Prepared(Err(e))) => action matches
                SlotAction::Fail(m) && m@ == "nested-exec: sibling WASI ctx: "@ + e@,
            (SlotState::Instantiating { .. }, SlotEvent::Instantiated(Err(e))) => action matches
                SlotAction::Fail(m) && m@ == "nested-exec: sibling instantiate_core: "@ + e@,
            (SlotState::Opening { .. }, SlotEvent::OpenTrapped(t)) => action matches SlotAction::Fail(m)
                && m@ == "nested-exec: sibling call_open trapped: "@ + t@,
            (SlotState::Opening { .. }, SlotEvent::Opened(Err(e))) => action matches SlotAction::Fail(m)
                && m@ == "nested-exec: sibling open failed: "@ + e@,
            (SlotState::Replaying { name }, SlotEvent::Replayed(reply)) => after is Ready && (action
                matches SlotAction::Finish { note: Some(n) } && n@ == (match reply {
                ExecReply::Rows(_) => "[sibling-replay] LOAD "@ + name@
                    + " on sibling primed get_pending_registrations from the shared archive"@,
                ExecReply::Failed(e) => "[sibling-replay] LOAD "@ + name@
                    + " on sibling returned duckerror: "@ + message_of(e@)
                    + " (registration replay may be partial)"@,
                ExecReply::Trapped(t) => "[sibling-replay] LOAD "@ + name@ + " on sibling trapped: "@
                    + t@ + " (registration replay skipped)"@,
            })),
            _ => after == state && action is Ignore,
        },
{
}

/// The extension that is replayed is the one that was loaded first, and the two queries of
/// the snapshot list the tables and the columns.
pub proof fn law_first_loaded(loaded: Seq<String>)
    ensures
        loaded.len() > 0 ==> first_loaded(loaded) == Some(loaded[0]),
        loaded.len() == 0 ==> first_loaded(loaded) is None,
        CATALOG_TABLES_SQL@ == "SELECT table_name FROM duckdb_tables()"@,
        CATALOG_COLUMNS_SQL@ == "SELECT DISTINCT column_name FROM duckdb_columns()"@,
{
}

/// What a nested query hands out: the text of each cell at its place, and the number of
/// changed rows.
pub proof fn law_nested_rows_are_by_cell(
    r: NestedExecResult,
    qr: crate::model::ResultModel,
    i: int,
    k: int,
)
    requires
        nested_rows(r, qr),
        0 <= i < qr.rows.len(),
        0 <= k < qr.rows[i].len(),
    ensures
        r.rows matches Some(rows) && rows@.len() == qr.rows.len() && rows@[i]@.len()
            == qr.rows[i].len() && rows@[i]@[k]@ == cell_text(qr.rows[i][k]),
{
    let rows = r.rows->0;
    assert(rows_of(rows@).len() == table_texts(qr.rows).len());
    assert(rows_of(rows@)[i] == table_texts(qr.rows)[i]);
    assert(rows_of(rows@)[i] == views(rows@[i]@));
    assert(views(rows@[i]@).len() == table_texts(qr.rows)[i].len());
    assert(views(rows@[i]@)[k] == table_texts(qr.rows)[i][k]);
}

/// The advice that goes in front of an error that blames an extension, word for word.
pub proof fn law_redirect_text()
    ensures
        NESTED_EXEC_DIRECTION2_REDIRECT@ == "nested-exec (Direction 1): the sibling core does not have host extensions loaded.\n\
If this entry references a function provided by a loaded extension, run it under\n\
the native ducklink DuckDB extension (Direction 2) instead. Underlying error: "@,
{
}

} // verus!
