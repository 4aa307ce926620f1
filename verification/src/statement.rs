//! How a statement of the command line is run: what waits for the core to be idle goes
//! first, an `ATTACH` or a write to an attached catalog is taken out of the core's
//! hands, and afterwards the catalog snapshot is refreshed.
use crate::attach::{empty_query_result, no_rows, AttachSpec};
use crate::cli_types::{Duckerror, QueryResult};
use crate::convert::{convert_core_duckerror, convert_core_query_result};
use crate::ident::{
    build_load_sql, is_loadable, is_loadable_name, is_safe_ident, is_safe_prefix_identifier,
    load_sql,
};
use crate::manager::ExtensionManager;
use crate::model::{views, ErrorModel, ResultModel};
use crate::render::table_texts;
use crate::sibling::{CatalogSnapshot, ExecReply, CATALOG_COLUMNS_SQL, CATALOG_TABLES_SQL};
use crate::text::{trim_pieces, trimmed_nonempty};
use crate::write::WriteRoute;
use vstd::prelude::*;

verus! {

// ---------------------------------------------------------------------------
// One statement
// ---------------------------------------------------------------------------

/// Where a statement stands.
#[derive(Debug)]
pub enum StatementRun {
    /// Extensions that were loaded meanwhile are made known to the core.
    Loads { sql: String, names: Vec<String>, pos: usize },
    /// Prefixes that were declared meanwhile are set up.
    Prefixes { sql: String, pairs: Vec<(String, String)>, pos: usize },
    /// It is found out whether the statement is an `ATTACH`.
    AttachParse { sql: String },
    Attaching,
    /// It is found out whether the statement writes to an attached catalog.
    WriteParse { sql: String },
    Writing,
    /// Scans of Delta tables are rewritten.
    Rewriting,
    /// The core runs the statement.
    Executing,
    /// The catalog snapshot is refreshed; the result is known.
    Refreshing { queries: Vec<&'static str>, pos: usize, result: Result<QueryResult, Duckerror> },
    Finished,
}

#[derive(Debug)]
pub enum StatementEvent {
    /// A `LOAD` has run, well or not.
    LoadRan,
    /// A declaration was set up, well or not.
    Declared,
    AttachParsed(Option<AttachSpec>),
    Attached(Result<QueryResult, Duckerror>),
    WriteParsed(Option<WriteRoute>),
    Written(Result<QueryResult, Duckerror>),
    Rewritten(String),
    Executed(ExecReply),
    Refreshed(ExecReply),
}

/// What to do next.
#[derive(Debug)]
pub enum StatementAction {
    RunLoad { sql: String },
    Declare { alias: String, namespace: String },
    ParseAttach { sql: String },
    Attach(AttachSpec),
    ParseWrite { sql: String },
    Write(WriteRoute),
    Rewrite { sql: String },
    Execute { sql: String },
    Refresh { query: &'static str },
    Finish(Result<QueryResult, Duckerror>),
    /// The event does not belong to the state; nothing is to be done.
    Ignore,
}

impl StatementRun {
    pub open spec fn wf(&self) -> bool {
        match *self {
            StatementRun::Loads { names, pos, .. } => pos <= names@.len(),
            StatementRun::Prefixes { pairs, pos, .. } => pos <= pairs@.len(),
            StatementRun::Refreshing { queries, pos, .. } => 0 < pos <= queries@.len(),
            _ => true,
        }
    }
}

/// The first name from `pos` on that can be spliced into a `LOAD`; the number of names
/// when there is none.
pub open spec fn next_loadable(names: Seq<String>, pos: int) -> int
    decreases names.len() - pos,
{
    if !(0 <= pos < names.len()) {
        names.len() as int
    } else if is_loadable(names[pos]@) {
        pos
    } else {
        next_loadable(names, pos + 1)
    }
}

/// The first pair from `pos` on that is made of plain identifiers; the number of pairs
/// when there is none.
pub open spec fn next_plain(pairs: Seq<(String, String)>, pos: int) -> int
    decreases pairs.len() - pos,
{
    if !(0 <= pos < pairs.len()) {
        pairs.len() as int
    } else if is_safe_ident(pairs[pos].0@) && is_safe_ident(pairs[pos].1@) {
        pos
    } else {
        next_plain(pairs, pos + 1)
    }
}

/// The statement goes on with the declarations from `pos` on, then to the question
/// whether it is an `ATTACH`.
pub open spec fn goes_to_prefixes(
    sql: Seq<char>,
    pairs: Seq<(String, String)>,
    pos: int,
    run: StatementRun,
    action: StatementAction,
) -> bool {
    let k = next_plain(pairs, pos);
    if k < pairs.len() {
        &&& run matches StatementRun::Prefixes { sql: s, pairs: p, pos: at } && s@ == sql && p@
            == pairs && at == k + 1
        &&& action matches StatementAction::Declare { alias, namespace } && alias@ == pairs[k].0@
            && namespace@ == pairs[k].1@
    } else {
        &&& run matches StatementRun::AttachParse { sql: s } && s@ == sql
        &&& action matches StatementAction::ParseAttach { sql: s } && s@ == sql
    }
}

/// The statement goes on with the names from `pos` on, then with the declarations that
/// wait, which it takes out of the queue.
pub open spec fn goes_to_loads(
    m: ExtensionManager,
    sql: Seq<char>,
    names: Seq<String>,
    pos: int,
    after_m: ExtensionManager,
    run: StatementRun,
    action: StatementAction,
) -> bool {
    let k = next_loadable(names, pos);
    if k < names.len() {
        &&& after_m == m
        &&& run matches StatementRun::Loads { sql: s, names: n, pos: at } && s@ == sql && n@ == names
            && at == k + 1
        &&& action matches StatementAction::RunLoad { sql: s } && s@ == load_sql(names[k]@)
    } else {
        &&& after_m == (ExtensionManager {
            deferred_prefix_declarations: after_m.deferred_prefix_declarations,
            ..m
        })
        &&& after_m.deferred_prefix_declarations@.len() == 0
        &&& goes_to_prefixes(sql, m.deferred_prefix_declarations@, 0, run, action)
    }
}

/// A result by its view.
pub open spec fn result_view(r: Result<QueryResult, Duckerror>) -> Result<ResultModel, ErrorModel> {
    match r {
        Ok(q) => Ok(q@),
        Err(e) => Err(e@),
    }
}

/// The result is known: the snapshot is refreshed, if an extension can ask for it.
pub open spec fn goes_to_refresh(
    m: ExtensionManager,
    result: Result<ResultModel, ErrorModel>,
    run: StatementRun,
    action: StatementAction,
) -> bool {
    if m.catalog_snapshot.enabled {
        &&& run matches StatementRun::Refreshing { queries, pos, result: r } && queries@
            == seq![CATALOG_TABLES_SQL, CATALOG_COLUMNS_SQL] && pos == 1 && result_view(r) == result
        &&& action == (StatementAction::Refresh { query: CATALOG_TABLES_SQL })
    } else {
        &&& run is Finished
        &&& action matches StatementAction::Finish(r) && result_view(r) == result
    }
}

/// What the core's answer to the statement means for the command line.
pub open spec fn outcome_of(reply: ExecReply) -> Result<ResultModel, ErrorModel> {
    match reply {
        ExecReply::Rows(q) => Ok(q@),
        ExecReply::Failed(e) => Err(e@),
        ExecReply::Trapped(t) => Err(ErrorModel::Internal(t@)),
    }
}

/// The result of a statement that the core has run.
pub fn query_outcome(reply: ExecReply) -> (r: Result<QueryResult, Duckerror>)
    ensures
        result_view(r) == outcome_of(reply),
{
    match reply {
        ExecReply::Rows(q) => Ok(convert_core_query_result(q)),
        ExecReply::Failed(e) => Err(convert_core_duckerror(e)),
        ExecReply::Trapped(t) => Err(Duckerror::Internal(t)),
    }
}

/// The snapshot after the answer to one of its queries: rows are kept, anything else
/// leaves what was there.
pub open spec fn snapshot_takes(before: CatalogSnapshot, sql: Seq<char>, reply: ExecReply, after: CatalogSnapshot) -> bool {
    &&& after.enabled == before.enabled
    &&& match reply {
        ExecReply::Rows(q) => after@ == before@.insert(sql, table_texts(q@.rows)),
        _ => after@ == before@,
    }
}

/// One step of a statement. `has_aliases` tells whether any catalog is attached.
pub open spec fn statement_next(
    m: ExtensionManager,
    run: StatementRun,
    event: StatementEvent,
    has_aliases: bool,
    after_m: ExtensionManager,
    after: StatementRun,
    action: StatementAction,
) -> bool {
    match (run, event) {
        (StatementRun::Loads { sql, names, pos }, StatementEvent::LoadRan) => goes_to_loads(
            m,
            sql@,
            names@,
            pos as int,
            after_m,
            after,
            action,
        ),
        (StatementRun::Prefixes { sql, pairs, pos }, StatementEvent::Declared) => {
            &&& after_m == m
            &&& goes_to_prefixes(sql@, pairs@, pos as int, after, action)
        },
        (StatementRun::AttachParse { sql }, StatementEvent::AttachParsed(found)) => {
            &&& after_m == m
            &&& match found {
                Some(spec) => after is Attaching && action == StatementAction::Attach(spec),
                None => if has_aliases {
                    &&& after == (StatementRun::WriteParse { sql })
                    &&& action == (StatementAction::ParseWrite { sql })
                } else {
                    &&& after is Rewriting
                    &&& action == (StatementAction::Rewrite { sql })
                },
            }
        },
        (StatementRun::Attaching, StatementEvent::Attached(result)) => {
            &&& after_m == m
            &&& match result {
                Ok(q) => goes_to_refresh(m, Ok(q@), after, action),
                Err(e) => after is Finished && action == StatementAction::Finish(Err(e)),
            }
        },
        (StatementRun::WriteParse { sql }, StatementEvent::WriteParsed(found)) => {
            &&& after_m == m
            &&& match found {
                Some(route) => after is Writing && action == StatementAction::Write(route),
                None => {
                    &&& after is Rewriting
                    &&& action == (StatementAction::Rewrite { sql })
                },
            }
        },
        (StatementRun::Writing, StatementEvent::Written(result)) => {
            &&& after_m == m
            &&& match result {
                Ok(q) => goes_to_refresh(m, Ok(q@), after, action),
                Err(e) => after is Finished && action == StatementAction::Finish(Err(e)),
            }
        },
        (StatementRun::Rewriting, StatementEvent::Rewritten(sql)) => {
            &&& after_m == m
            &&& after is Executing
            &&& action == (StatementAction::Execute { sql })
        },
        (StatementRun::Executing, StatementEvent::Executed(reply)) => {
            &&& after_m == m
            &&& if reply is Trapped {
                &&& after is Finished
                &&& action matches StatementAction::Finish(r) && result_view(r) == outcome_of(reply)
            } else {
                goes_to_refresh(m, outcome_of(reply), after, action)
            }
        },
        (
            StatementRun::Refreshing { queries, pos, result },
            StatementEvent::Refreshed(reply),
        ) => {
            &&& after_m == (ExtensionManager { catalog_snapshot: after_m.catalog_snapshot, ..m })
            &&& snapshot_takes(
                m.catalog_snapshot,
                queries@[pos - 1]@,
                reply,
                after_m.catalog_snapshot,
            )
            &&& if pos < queries@.len() {
                &&& after matches StatementRun::Refreshing { queries: q2, pos: p2, result: r2 } && q2
                    == queries && p2 == pos + 1 && r2 == result
                &&& action == (StatementAction::Refresh { query: queries@[pos as int] })
            } else {
                &&& after is Finished
                &&& action == StatementAction::Finish(result)
            }
        },
        _ => after_m == m && after == run && action is Ignore,
    }
}

fn go_to_prefixes(sql: String, pairs: Vec<(String, String)>, pos: usize) -> (r: (
    StatementRun,
    StatementAction,
))
    requires
        pos <= pairs@.len(),
    ensures
        goes_to_prefixes(sql@, pairs@, pos as int, r.0, r.1),
        r.0.wf(),
{
    let mut i: usize = pos;
    while i < pairs.len()
        invariant
            pos <= i <= pairs@.len(),
            next_plain(pairs@, pos as int) == next_plain(pairs@, i as int),
        decreases pairs@.len() - i,
    {
        if is_safe_prefix_identifier(pairs[i].0.as_str()) && is_safe_prefix_identifier(
            pairs[i].1.as_str(),
        ) {
            let alias = pairs[i].0.clone();
            let namespace = pairs[i].1.clone();
            return (
                StatementRun::Prefixes { sql, pairs, pos: i + 1 },
                StatementAction::Declare { alias, namespace },
            );
        }
        i += 1;
    }
    (StatementRun::AttachParse { sql: sql.clone() }, StatementAction::ParseAttach { sql })
}

fn go_to_loads(m: &mut ExtensionManager, sql: String, names: Vec<String>, pos: usize) -> (r: (
    StatementRun,
    StatementAction,
))
    requires
        pos <= names@.len(),
    ensures
        goes_to_loads(*old(m), sql@, names@, pos as int, *final(m), r.0, r.1),
        r.0.wf(),
        old(m).wf() ==> final(m).wf(),
{
    let mut i: usize = pos;
    while i < names.len()
        invariant
            pos <= i <= names@.len(),
            *m == *old(m),
            next_loadable(names@, pos as int) == next_loadable(names@, i as int),
        decreases names@.len() - i,
    {
        if is_loadable_name(names[i].as_str()) {
            let load = build_load_sql(names[i].as_str());
            return (
                StatementRun::Loads { sql, names, pos: i + 1 },
                StatementAction::RunLoad { sql: load },
            );
        }
        i += 1;
    }
    let pairs = m.take_deferred_prefix_declarations();
    go_to_prefixes(sql, pairs, 0)
}

fn go_to_refresh(m: &ExtensionManager, result: Result<QueryResult, Duckerror>) -> (r: (
    StatementRun,
    StatementAction,
))
    ensures
        goes_to_refresh(*m, result_view(result), r.0, r.1),
        r.0.wf(),
{
    let queries = m.catalog_snapshot.refresh_queries();
    if queries.len() == 0 {
        (StatementRun::Finished, StatementAction::Finish(result))
    } else {
        let query: &'static str = queries[0];
        (
            StatementRun::Refreshing { queries, pos: 1, result },
            StatementAction::Refresh { query },
        )
    }
}

/// Begins a statement: the names of the extensions that wait are taken out of the
/// queue.
pub fn execute_single_statement(m: &mut ExtensionManager, sql: &str) -> (r: (
    StatementRun,
    StatementAction,
))
    ensures
        final(m).deferred_drain_names@.len() == 0,
        goes_to_loads(
            (ExtensionManager { deferred_drain_names: final(m).deferred_drain_names, ..*old(m) }),
            sql@,
            old(m).deferred_drain_names@,
            0,
            *final(m),
            r.0,
            r.1,
        ),
        r.0.wf(),
        old(m).wf() ==> final(m).wf(),
{
    let names = m.take_deferred_drain_names();
    go_to_loads(m, sql.to_owned(), names, 0)
}

/// Takes one step of a statement.
pub fn statement_step(
    m: &mut ExtensionManager,
    run: StatementRun,
    event: StatementEvent,
    has_aliases: bool,
) -> (r: (StatementRun, StatementAction))
    requires
        run.wf(),
    ensures
        statement_next(*old(m), run, event, has_aliases, *final(m), r.0, r.1),
        r.0.wf(),
        old(m).wf() ==> final(m).wf(),
{
    match (run, event) {
        (StatementRun::Loads { sql, names, pos }, StatementEvent::LoadRan) => go_to_loads(
            m,
            sql,
            names,
            pos,
        ),
        (StatementRun::Prefixes { sql, pairs, pos }, StatementEvent::Declared) => go_to_prefixes(
            sql,
            pairs,
            pos,
        ),
        (StatementRun::AttachParse { sql }, StatementEvent::AttachParsed(found)) => match found {
            Some(spec) => (StatementRun::Attaching, StatementAction::Attach(spec)),
            None => {
                if has_aliases {
                    (
                        StatementRun::WriteParse { sql: sql.clone() },
                        StatementAction::ParseWrite { sql },
                    )
                } else {
                    (StatementRun::Rewriting, StatementAction::Rewrite { sql })
                }
            },
        },
        (StatementRun::Attaching, StatementEvent::Attached(result)) => match result {
            Ok(q) => go_to_refresh(m, Ok(q)),
            Err(e) => (StatementRun::Finished, StatementAction::Finish(Err(e))),
        },
        (StatementRun::WriteParse { sql }, StatementEvent::WriteParsed(found)) => match found {
            Some(route) => (StatementRun::Writing, StatementAction::Write(route)),
            None => (StatementRun::Rewriting, StatementAction::Rewrite { sql }),
        },
        (StatementRun::Writing, StatementEvent::Written(result)) => match result {
            Ok(q) => go_to_refresh(m, Ok(q)),
            Err(e) => (StatementRun::Finished, StatementAction::Finish(Err(e))),
        },
        (StatementRun::Rewriting, StatementEvent::Rewritten(sql)) => (
            StatementRun::Executing,
            StatementAction::Execute { sql },
        ),
        (StatementRun::Executing, StatementEvent::Executed(reply)) => {
            let trapped: bool = matches!(reply, ExecReply::Trapped(_));
            let result = query_outcome(reply);
            if trapped {
                (StatementRun::Finished, StatementAction::Finish(result))
            } else {
                go_to_refresh(m, result)
            }
        },
        (
            StatementRun::Refreshing { queries, pos, result },
            StatementEvent::Refreshed(reply),
        ) => {
            let _ = m.catalog_snapshot.answer_idle(queries[pos - 1], reply);
            if pos < queries.len() {
                let query: &'static str = queries[pos];
                (
                    StatementRun::Refreshing { queries, pos: pos + 1, result },
                    StatementAction::Refresh { query },
                )
            } else {
                (StatementRun::Finished, StatementAction::Finish(result))
            }
        },
        (run, _) => (run, StatementAction::Ignore),
    }
}

// ---------------------------------------------------------------------------
// Several statements at once
// ---------------------------------------------------------------------------

/// The statements of a text. `pieces` is the text split at its top-level semicolons,
/// where it holds several statements.
pub fn script_statements(sql: &str, pieces: Option<Vec<String>>) -> (r: Vec<String>)
    ensures
        views(r@) == match pieces {
            Some(p) => trimmed_nonempty(views(p@)),
            None => seq![sql@],
        },
{
    match pieces {
        Some(p) => trim_pieces(&p),
        None => {
            let mut out: Vec<String> = Vec::new();
            out.push(sql.to_owned());
            assert(views(out@) =~= seq![sql@]);
            out
        },
    }
}

/// Where a row of statements stands: the next one to run.
#[derive(Debug)]
pub struct ScriptRun {
    pub statements: Vec<String>,
    pub pos: usize,
}

/// What to do next.
#[derive(Debug)]
pub enum ScriptAction {
    Run { sql: String },
    Finish(Result<QueryResult, Duckerror>),
}

/// The row goes on with its next statement, and ends with the last result behind the
/// last statement and with the first error.
pub open spec fn script_next(
    run: ScriptRun,
    result: Result<QueryResult, Duckerror>,
    after: ScriptRun,
    action: ScriptAction,
) -> bool {
    match result {
        Err(e) => after == run && action == ScriptAction::Finish(Err(e)),
        Ok(q) => if run.pos < run.statements@.len() {
            &&& after == (ScriptRun { pos: (run.pos + 1) as usize, ..run })
            &&& action matches ScriptAction::Run { sql } && sql@ == run.statements@[run.pos as int]@
        } else {
            &&& after == run
            &&& action == ScriptAction::Finish(Ok(q))
        },
    }
}

/// Begins a row of statements. An empty one has an empty result.
pub fn execute(statements: Vec<String>) -> (r: (ScriptRun, ScriptAction))
    ensures
        if statements@.len() == 0 {
            r.1 matches ScriptAction::Finish(Ok(q)) && q@ == no_rows()
        } else {
            &&& r.0 == (ScriptRun { statements, pos: 1 })
            &&& r.1 matches ScriptAction::Run { sql } && sql@ == statements@[0]@
        },
{
    if statements.len() == 0 {
        (ScriptRun { statements, pos: 0 }, ScriptAction::Finish(Ok(empty_query_result())))
    } else {
        let sql = statements[0].clone();
        (ScriptRun { statements, pos: 1 }, ScriptAction::Run { sql })
    }
}

/// Goes on after a statement has its result.
pub fn script_step(run: ScriptRun, result: Result<QueryResult, Duckerror>) -> (r: (
    ScriptRun,
    ScriptAction,
))
    ensures
        script_next(run, result, r.0, r.1),
{
    match result {
        Err(e) => (run, ScriptAction::Finish(Err(e))),
        Ok(q) => {
            if run.pos < run.statements.len() {
                let sql = run.statements[run.pos].clone();
                (
                    ScriptRun { statements: run.statements, pos: run.pos + 1 },
                    ScriptAction::Run { sql },
                )
            } else {
                (run, ScriptAction::Finish(Ok(q)))
            }
        },
    }
}

// ---------------------------------------------------------------------------
// Laws
// ---------------------------------------------------------------------------

/// What is spliced into a `LOAD` that brings the core up to date is a plain name.
pub proof fn law_replayed_names_are_loadable(names: Seq<String>, pos: int)
    requires
        0 <= pos,
    ensures
        pos <= names.len() ==> pos <= next_loadable(names, pos),
        next_loadable(names, pos) <= names.len(),
        next_loadable(names, pos) < names.len() ==> is_loadable(
            names[next_loadable(names, pos)]@,
        ),
        forall|i: int|
            pos <= i < next_loadable(names, pos) ==> !is_loadable((#[trigger] names[i])@),
    decreases names.len() - pos,
{
    if pos < names.len() && !is_loadable(names[pos]@) {
        law_replayed_names_are_loadable(names, pos + 1);
    }
}

/// Refreshing the snapshot never changes the result of the statement, whatever the core
/// answers.
pub proof fn law_refresh_keeps_the_result(
    m: ExtensionManager,
    queries: Vec<&'static str>,
    pos: usize,
    result: Result<QueryResult, Duckerror>,
    reply: ExecReply,
    has_aliases: bool,
    after_m: ExtensionManager,
    after: StatementRun,
    action: StatementAction,
)
    requires
        statement_next(
            m,
            StatementRun::Refreshing { queries, pos, result },
            StatementEvent::Refreshed(reply),
            has_aliases,
            after_m,
            after,
            action,
        ),
    ensures
        action matches StatementAction::Finish(r) ==> r == result,
        after matches StatementRun::Refreshing { result: r, .. } ==> r == result,
{
}

/// A refused `ATTACH` or write never reaches the core: the statement ends with the
/// error.
pub proof fn law_refused_statement_ends(
    m: ExtensionManager,
    e: Duckerror,
    has_aliases: bool,
    after_m: ExtensionManager,
    after: StatementRun,
    action: StatementAction,
)
    requires
        statement_next(
            m,
            StatementRun::Attaching,
            StatementEvent::Attached(Err(e)),
            has_aliases,
            after_m,
            after,
            action,
        ) || statement_next(
            m,
            StatementRun::Writing,
            StatementEvent::Written(Err(e)),
            has_aliases,
            after_m,
            after,
            action,
        ),
    ensures
        after is Finished,
        action == StatementAction::Finish(Err(e)),
{
}

/// The next declaration to set up is the first from a place on whose alias and namespace can
/// be written.
pub proof fn law_replayed_declarations_are_plain(pairs: Seq<(String, String)>, pos: int)
    requires
        0 <= pos <= pairs.len(),
    ensures
        ({
            let k = next_plain(pairs, pos);
            &&& pos <= k <= pairs.len()
            &&& k < pairs.len() ==> is_safe_ident(pairs[k].0@) && is_safe_ident(pairs[k].1@)
            &&& forall|i: int|
                pos <= i < k ==> !is_safe_ident((#[trigger] pairs[i]).0@) || !is_safe_ident(pairs[i].1@)
        }),
    decreases pairs.len() - pos,
{
    if pos < pairs.len() && !(is_safe_ident(pairs[pos].0@) && is_safe_ident(pairs[pos].1@)) {
        law_replayed_declarations_are_plain(pairs, pos + 1);
    }
}

/// What waits is done before the statement: the loads in their order, then the declarations
/// in their order, and then the very statement is looked at.
pub proof fn law_waiting_work_comes_first(
    m: ExtensionManager,
    sql: Seq<char>,
    names: Seq<String>,
    pos: int,
    after_m: ExtensionManager,
    run: StatementRun,
    action: StatementAction,
)
    requires
        0 <= pos <= names.len(),
        goes_to_loads(m, sql, names, pos, after_m, run, action),
    ensures
        match action {
            StatementAction::RunLoad { sql: s } => exists|k: int|
                pos <= k < names.len() && s@ == "LOAD "@ + (#[trigger] names[k])@ + ";"@ && is_loadable(
                    names[k]@,
                ) && (run matches StatementRun::Loads { sql: t, pos: at, .. } && t@ == sql && at == k + 1),
            StatementAction::Declare { alias, namespace } => {
                &&& forall|i: int| pos <= i < names.len() ==> !is_loadable((#[trigger] names[i])@)
                &&& after_m.deferred_prefix_declarations@.len() == 0
                &&& exists|k: int|
                    0 <= k < m.deferred_prefix_declarations@.len() && alias@ == (
                    #[trigger] m.deferred_prefix_declarations@[k]).0@ && namespace@
                        == m.deferred_prefix_declarations@[k].1@
            },
            StatementAction::ParseAttach { sql: s } => s@ == sql && (run matches
                StatementRun::AttachParse { sql: t } && t@ == sql),
            _ => false,
        },
{
    law_replayed_names_are_loadable(names, pos);
    let k = next_loadable(names, pos);
    if k < names.len() {
        assert(names[k]@ == names[k]@);
    } else {
        law_replayed_declarations_are_plain(m.deferred_prefix_declarations@, 0);
        let j = next_plain(m.deferred_prefix_declarations@, 0);
        if j < m.deferred_prefix_declarations@.len() {
            assert(m.deferred_prefix_declarations@[j].0@ == m.deferred_prefix_declarations@[j].0@);
        }
    }
}

/// A statement is first tried as an ATTACH, then, where there are attached catalogs, as a
/// write to one of them, and otherwise it goes to the core with its Delta scans rewritten.
/// Each stage is handed the same text.
pub proof fn law_statement_takes_its_way(
    m: ExtensionManager,
    run: StatementRun,
    event: StatementEvent,
    has_aliases: bool,
    after_m: ExtensionManager,
    after: StatementRun,
    action: StatementAction,
)
    requires
        run.wf(),
        statement_next(m, run, event, has_aliases, after_m, after, action),
    ensures
        match (run, event) {
            (StatementRun::AttachParse { sql }, StatementEvent::AttachParsed(Some(s))) => action
                == StatementAction::Attach(s),
            (StatementRun::AttachParse { sql }, StatementEvent::AttachParsed(None)) => if has_aliases {
                action == (StatementAction::ParseWrite { sql }) && after == (StatementRun::WriteParse {
                    sql,
                })
            } else {
                action == (StatementAction::Rewrite { sql }) && after is Rewriting
            },
            (StatementRun::WriteParse { sql }, StatementEvent::WriteParsed(Some(route))) => action
                == StatementAction::Write(route),
            (StatementRun::WriteParse { sql }, StatementEvent::WriteParsed(None)) => action == (
            StatementAction::Rewrite { sql }) && after is Rewriting,
            (StatementRun::Rewriting, StatementEvent::Rewritten(sql)) => action == (
            StatementAction::Execute { sql }) && after is Executing,
            _ => true,
        },
{
}

/// The caller gets the core's rows, the core's own error, or what was trapped as an internal
/// error. Where a catalog snapshot is kept, it is refreshed first, unless the core trapped.
pub proof fn law_statement_hands_out_the_outcome(
    m: ExtensionManager,
    reply: ExecReply,
    has_aliases: bool,
    after_m: ExtensionManager,
    after: StatementRun,
    action: StatementAction,
)
    requires
        statement_next(
            m,
            StatementRun::Executing,
            StatementEvent::Executed(reply),
            has_aliases,
            after_m,
            after,
            action,
        ),
    ensures
        ({
            let due = match (action, after) {
                (StatementAction::Finish(r), _) => Some(r),
                (_, StatementRun::Refreshing { result, .. }) => Some(result),
                _ => None,
            };
            &&& action is Finish <==> reply is Trapped || !m.catalog_snapshot.enabled
            &&& action is Refresh ==> (action matches StatementAction::Refresh { query } && query@
                == "SELECT table_name FROM duckdb_tables()"@)
            &&& match (reply, due) {
                (ExecReply::Rows(q), Some(Ok(r))) => r@ == q@,
                (ExecReply::Failed(e), Some(Err(f))) => f@ == e@,
                (ExecReply::Trapped(t), Some(Err(f))) => f@ == ErrorModel::Internal(t@),
                _ => false,
            }
        }),
{
}

/// The catalog snapshot holds the latest rows of each query, as texts; a query that failed
/// leaves what was there.
pub proof fn law_snapshot_holds_the_latest_rows(
    m: ExtensionManager,
    queries: Vec<&'static str>,
    pos: usize,
    result: Result<QueryResult, Duckerror>,
    reply: ExecReply,
    has_aliases: bool,
    after_m: ExtensionManager,
    after: StatementRun,
    action: StatementAction,
    other: Seq<char>,
)
    requires
        0 < pos <= queries@.len(),
        statement_next(
            m,
            StatementRun::Refreshing { queries, pos, result },
            StatementEvent::Refreshed(reply),
            has_aliases,
            after_m,
            after,
            action,
        ),
    ensures
        reply matches ExecReply::Rows(q) ==> after_m.catalog_snapshot@.contains_key(queries@[pos - 1]@)
            && after_m.catalog_snapshot@[queries@[pos - 1]@] == table_texts(q@.rows),
        !(reply is Rows) || other != queries@[pos - 1]@ ==> after_m.catalog_snapshot@.contains_key(other)
            == m.catalog_snapshot@.contains_key(other) && (m.catalog_snapshot@.contains_key(other)
            ==> after_m.catalog_snapshot@[other] == m.catalog_snapshot@[other]),
        pos < queries@.len() ==> action == (StatementAction::Refresh { query: queries@[pos as int] })
            && after == (StatementRun::Refreshing { queries, pos: (pos + 1) as usize, result }),
        pos == queries@.len() ==> action == StatementAction::Finish(result) && after is Finished,
{
}

/// The statements of a script run in their order until one fails, and the outcome is that
/// of the last one that ran.
pub proof fn law_script_stops_at_the_first_failure(
    run: ScriptRun,
    result: Result<QueryResult, Duckerror>,
    after: ScriptRun,
    action: ScriptAction,
)
    requires
        script_next(run, result, after, action),
    ensures
        after.statements == run.statements,
        match action {
            ScriptAction::Run { sql } => result is Ok && run.pos < run.statements@.len() && sql@
                == run.statements@[run.pos as int]@ && after.pos == run.pos + 1,
            ScriptAction::Finish(r) => r == result && (result is Err || run.pos
                >= run.statements@.len()),
        },
{
    assert(run.statements@.len() == run.statements.len());
}

/// The declarations go on in their order, and behind the last the very statement is looked
/// at.
pub proof fn law_declarations_go_on(
    m: ExtensionManager,
    sql: String,
    pairs: Vec<(String, String)>,
    pos: usize,
    has_aliases: bool,
    after_m: ExtensionManager,
    after: StatementRun,
    action: StatementAction,
)
    requires
        pos <= pairs@.len(),
        statement_next(
            m,
            StatementRun::Prefixes { sql, pairs, pos },
            StatementEvent::Declared,
            has_aliases,
            after_m,
            after,
            action,
        ),
    ensures
        after_m == m,
        match action {
            StatementAction::Declare { alias, namespace } => exists|k: int|
                pos <= k < pairs@.len() && alias@ == (#[trigger] pairs@[k]).0@ && namespace@
                    == pairs@[k].1@ && (after matches StatementRun::Prefixes { sql: s, pos: at, .. } && s@
                    == sql@ && at == k + 1),
            StatementAction::ParseAttach { sql: s } => s@ == sql@ && forall|i: int|
                pos <= i < pairs@.len() ==> !is_safe_ident((#[trigger] pairs@[i]).0@) || !is_safe_ident(
                    pairs@[i].1@,
                ),
            _ => false,
        },
{
    law_replayed_declarations_are_plain(pairs@, pos as int);
    let k = next_plain(pairs@, pos as int);
    if k < pairs@.len() {
        assert(pairs@[k].0@ == pairs@[k].0@);
    }
}

/// An attachment and a write hand out their own rows, after the snapshot was refreshed where
/// one is kept.
pub proof fn law_attachments_and_writes_hand_out_their_rows(
    m: ExtensionManager,
    run: StatementRun,
    event: StatementEvent,
    q: QueryResult,
    has_aliases: bool,
    after_m: ExtensionManager,
    after: StatementRun,
    action: StatementAction,
)
    requires
        statement_next(m, run, event, has_aliases, after_m, after, action),
        (run is Attaching && event == StatementEvent::Attached(Ok(q))) || (run is Writing && event
            == StatementEvent::Written(Ok(q))),
    ensures
        after_m == m,
        match (action, after) {
            (StatementAction::Finish(r), _) => !m.catalog_snapshot.enabled && (r matches Ok(x) && x@
                == q@),
            (StatementAction::Refresh { query }, StatementRun::Refreshing { queries, pos, result }) => {
                &&& m.catalog_snapshot.enabled
                &&& query@ == "SELECT table_name FROM duckdb_tables()"@
                &&& queries@.len() == 2
                &&& queries@[1]@ == "SELECT DISTINCT column_name FROM duckdb_columns()"@
                &&& pos == 1
                &&& result matches Ok(x) && x@ == q@
            },
            _ => false,
        },
{
}

/// The loads go on in their order, and behind the last come the declarations and the very
/// statement.
pub proof fn law_loads_go_on(
    m: ExtensionManager,
    sql: String,
    names: Vec<String>,
    pos: usize,
    has_aliases: bool,
    after_m: ExtensionManager,
    after: StatementRun,
    action: StatementAction,
)
    requires
        pos <= names@.len(),
        statement_next(
            m,
            StatementRun::Loads { sql, names, pos },
            StatementEvent::LoadRan,
            has_aliases,
            after_m,
            after,
            action,
        ),
    ensures
        match action {
            StatementAction::RunLoad { sql: s } => exists|k: int|
                pos <= k < names@.len() && s@ == "LOAD "@ + (#[trigger] names@[k])@ + ";"@ && is_loadable(
                    names@[k]@,
                ) && (after matches StatementRun::Loads { sql: t, pos: at, .. } && t@ == sql@ && at == k
                    + 1),
            StatementAction::Declare { .. } => forall|i: int|
                pos <= i < names@.len() ==> !is_loadable((#[trigger] names@[i])@),
            StatementAction::ParseAttach { sql: s } => s@ == sql@ && forall|i: int|
                pos <= i < names@.len() ==> !is_loadable((#[trigger] names@[i])@),
            _ => false,
        },
{
    law_replayed_names_are_loadable(names@, pos as int);
    law_waiting_work_comes_first(m, sql@, names@, pos as int, after_m, after, action);
}

} // verus!
