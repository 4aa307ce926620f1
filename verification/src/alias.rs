//! `ducklink_prefix(alias, namespace)`: every function of a namespace is made callable
//! as `<alias>.<name>`.
use crate::ident::{is_safe_ident, is_safe_prefix_identifier};
use crate::model::{message_of, rows_of, view_opt, views};
use crate::prefix::{sql_escaped, sql_lit};
use crate::render::{render_table, table_texts};
use crate::sibling::{core_duckerror_message, ExecReply};
use crate::text::{
    decimal_of, decimal_u128, join, join_of, list_items, replace_of, same_text, split_list,
};
use crate::core_types::QueryResult;
use vstd::prelude::*;

verus! {

// ---------------------------------------------------------------------------
// One alias
// ---------------------------------------------------------------------------

/// The parameter names of an alias: a name that is no identifier is replaced by one
/// that is made from its position.
pub open spec fn alias_args(params: Seq<Seq<char>>) -> Seq<Seq<char>> {
    Seq::new(
        params.len(),
        |i: int|
            if is_safe_ident(params[i]) {
                params[i]
            } else {
                "_a"@ + decimal_of(i)
            },
    )
}

/// The statement that makes `<alias>.<name>` stand for `<namespace>.<name>`; none for
/// a kind of function that cannot be wrapped.
pub open spec fn alias_macro(
    ftype: Seq<char>,
    alias: Seq<char>,
    name: Seq<char>,
    namespace: Seq<char>,
    params: Seq<Seq<char>>,
) -> Option<Seq<char>> {
    let args = alias_args(params);
    let list = join_of(args, ", "@);
    let head = "CREATE OR REPLACE MACRO "@ + alias + "."@ + name + "("@;
    let source = namespace + "."@ + name;
    if ftype == "scalar"@ || ftype == "scalar_macro"@ || ftype == "macro"@ {
        Some(head + list + ") AS "@ + source + "("@ + list + ")"@)
    } else if ftype == "table"@ || ftype == "table_macro"@ {
        Some(head + list + ") AS TABLE SELECT * FROM "@ + source + "("@ + list + ")"@)
    } else if ftype == "aggregate"@ && args.len() == 1 {
        Some(head + args[0] + ") AS list_aggregate(list("@ + args[0] + "), '"@ + source + "')"@)
    } else {
        None
    }
}

fn arg_names(params: &Vec<String>) -> (r: Vec<String>)
    ensures
        views(r@) == alias_args(views(params@)),
{
    let mut out: Vec<String> = Vec::new();
    let mut i: usize = 0;
    while i < params.len()
        invariant
            i <= params@.len(),
            out@.len() == i,
            forall|j: int|
                0 <= j < i ==> (#[trigger] out@[j])@ == alias_args(views(params@))[j],
        decreases params@.len() - i,
    {
        assert(views(params@)[i as int] == params@[i as int]@);
        if is_safe_prefix_identifier(params[i].as_str()) {
            out.push(params[i].clone());
        } else {
            let mut a = "_a".to_owned();
            a.append(decimal_u128(i as u128).as_str());
            out.push(a);
        }
        i += 1;
    }
    assert(views(out@) =~= alias_args(views(params@)));
    out
}

pub fn build_prefix_alias_macro(
    ftype: &str,
    alias: &str,
    name: &str,
    namespace: &str,
    params: &Vec<String>,
) -> (r: Option<String>)
    ensures
        view_opt(r) == alias_macro(ftype@, alias@, name@, namespace@, views(params@)),
{
    let args = arg_names(params);
    let ghost all = alias_args(views(params@));
    let list = join(&args, ", ");
    let mut source = namespace.to_owned();
    source.append(".");
    source.append(name);
    let mut out = "CREATE OR REPLACE MACRO ".to_owned();
    out.append(alias);
    out.append(".");
    out.append(name);
    out.append("(");
    if same_text(ftype, "scalar") || same_text(ftype, "scalar_macro") || same_text(ftype, "macro") {
        out.append(list.as_str());
        out.append(") AS ");
        out.append(source.as_str());
        out.append("(");
        out.append(list.as_str());
        out.append(")");
        proof {
            let head = "CREATE OR REPLACE MACRO "@ + alias@ + "."@ + name@ + "("@;
            assert(out@ =~= head + list@ + ") AS "@ + source@ + "("@ + list@ + ")"@);
        }
        Some(out)
    } else if same_text(ftype, "table") || same_text(ftype, "table_macro") {
        out.append(list.as_str());
        out.append(") AS TABLE SELECT * FROM ");
        out.append(source.as_str());
        out.append("(");
        out.append(list.as_str());
        out.append(")");
        Some(out)
    } else if same_text(ftype, "aggregate") && args.len() == 1 {
        assert(all[0] == args@[0]@) by {
            assert(views(args@)[0] == args@[0]@);
        }
        out.append(args[0].as_str());
        out.append(") AS list_aggregate(list(");
        out.append(args[0].as_str());
        out.append("), '");
        out.append(source.as_str());
        out.append("')");
        Some(out)
    } else {
        assert(all.len() == args@.len()) by {
            assert(views(args@).len() == args@.len());
        }
        None
    }
}

// ---------------------------------------------------------------------------
// All aliases of a namespace
// ---------------------------------------------------------------------------

/// A cell of a row of texts; empty when the row is too short.
pub open spec fn cell(row: Seq<Seq<char>>, i: int) -> Seq<char> {
    if 0 <= i < row.len() {
        row[i]
    } else {
        Seq::empty()
    }
}

/// The parameters of a listed function.
pub open spec fn listed_params(row: Seq<Seq<char>>) -> Seq<Seq<char>> {
    list_items(cell(row, 2), ',')
}

/// The names and arities that the listed functions take up, each once.
pub open spec fn taken(rows: Seq<Seq<Seq<char>>>) -> Seq<(Seq<char>, nat)>
    decreases rows.len(),
{
    if rows.len() == 0 {
        Seq::empty()
    } else {
        let before = taken(rows.drop_last());
        let row = rows.last();
        let key = (cell(row, 0), listed_params(row).len());
        if !is_safe_ident(cell(row, 0)) || before.contains(key) {
            before
        } else {
            before.push(key)
        }
    }
}

/// The aliases to make for the listed functions: name and statement. A function
/// without a proper name is passed over, and so is a second one of the same name and
/// arity.
pub open spec fn alias_plan(
    rows: Seq<Seq<Seq<char>>>,
    alias: Seq<char>,
    namespace: Seq<char>,
) -> Seq<(Seq<char>, Seq<char>)>
    decreases rows.len(),
{
    if rows.len() == 0 {
        Seq::empty()
    } else {
        let before = alias_plan(rows.drop_last(), alias, namespace);
        let row = rows.last();
        let name = cell(row, 0);
        let params = listed_params(row);
        if !is_safe_ident(name) || taken(rows.drop_last()).contains((name, params.len())) {
            before
        } else {
            match alias_macro(cell(row, 1), alias, name, namespace, params) {
                Some(sql) => before.push((name, sql)),
                None => before,
            }
        }
    }
}

/// An alias to make: the name of the function and the statement.
#[derive(Debug)]
pub struct AliasStatement {
    pub name: String,
    pub sql: String,
}

impl View for AliasStatement {
    type V = (Seq<char>, Seq<char>);

    open spec fn view(&self) -> (Seq<char>, Seq<char>) {
        (self.name@, self.sql@)
    }
}

/// Names and arities by the views of the names.
pub open spec fn keys_of(v: Seq<(String, usize)>) -> Seq<(Seq<char>, nat)> {
    v.map_values(|k: (String, usize)| (k.0@, k.1 as nat))
}

fn key_listed(keys: &Vec<(String, usize)>, name: &str, arity: usize) -> (r: bool)
    ensures
        r == keys_of(keys@).contains((name@, arity as nat)),
{
    let mut i: usize = 0;
    while i < keys.len()
        invariant
            i <= keys@.len(),
            forall|j: int| 0 <= j < i ==> #[trigger] keys_of(keys@)[j] != (name@, arity as nat),
        decreases keys@.len() - i,
    {
        assert(keys_of(keys@)[i as int] == (keys@[i as int].0@, keys@[i as int].1 as nat));
        if same_text(keys[i].0.as_str(), name) && keys[i].1 == arity {
            return true;
        }
        i += 1;
    }
    false
}

fn row_cell(row: &Vec<String>, i: usize) -> (r: String)
    ensures
        r@ == cell(views(row@), i as int),
{
    if i < row.len() {
        row[i].clone()
    } else {
        let empty = String::new();
        assert(empty@ =~= Seq::<char>::empty());
        empty
    }
}

/// The aliases to make for the functions that were found.
pub fn plan_aliases(rows: &Vec<Vec<String>>, alias: &str, namespace: &str) -> (r: Vec<AliasStatement>)
    ensures
        views(r@) == alias_plan(rows_of(rows@), alias@, namespace@),
{
    let ghost all = rows_of(rows@);
    let mut keys: Vec<(String, usize)> = Vec::new();
    let mut out: Vec<AliasStatement> = Vec::new();
    let mut i: usize = 0;
    assert(keys_of(keys@) =~= taken(all.take(0)));
    assert(views(out@) =~= alias_plan(all.take(0), alias@, namespace@));
    while i < rows.len()
        invariant
            i <= rows@.len(),
            all == rows_of(rows@),
            keys_of(keys@) == taken(all.take(i as int)),
            views(out@) == alias_plan(all.take(i as int), alias@, namespace@),
        decreases rows@.len() - i,
    {
        let ghost k0 = keys@;
        let ghost o0 = out@;
        assert(all.take(i + 1).drop_last() =~= all.take(i as int));
        assert(all.take(i + 1).last() == views(rows@[i as int]@));
        let row = &rows[i];
        let name = row_cell(row, 0);
        let ftype = row_cell(row, 1);
        let csv = row_cell(row, 2);
        let params = split_list(csv.as_str(), ',');
        assert(views(params@).len() == params@.len());
        if is_safe_prefix_identifier(name.as_str()) && !key_listed(
            &keys,
            name.as_str(),
            params.len(),
        ) {
            keys.push((name.clone(), params.len()));
            assert(keys_of(keys@) =~= keys_of(k0).push((name@, params@.len())));
            match build_prefix_alias_macro(ftype.as_str(), alias, name.as_str(), namespace, &params) {
                Some(sql) => {
                    out.push(AliasStatement { name, sql });
                    assert(views(out@) =~= views(o0).push((name@, sql@)));
                },
                None => {},
            }
        }
        i += 1;
    }
    assert(all.take(all.len() as int) =~= all);
    out
}

// ---------------------------------------------------------------------------
// The run of one declaration
// ---------------------------------------------------------------------------

/// The outcome of a statement that returns no rows.
pub open spec fn ddl_text(reply: ExecReply) -> Result<(), Seq<char>> {
    match reply {
        ExecReply::Rows(_) => Ok(()),
        ExecReply::Failed(e) => Err(message_of(e@)),
        ExecReply::Trapped(t) => Err("trap: "@ + t@),
    }
}

pub fn run_prefix_ddl(reply: ExecReply) -> (r: Result<(), String>)
    ensures
        match r {
            Ok(_) => ddl_text(reply) is Ok,
            Err(m) => ddl_text(reply) == Err::<(), Seq<char>>(m@),
        },
{
    match reply {
        ExecReply::Rows(_) => Ok(()),
        ExecReply::Failed(e) => Err(core_duckerror_message(e)),
        ExecReply::Trapped(t) => {
            let mut m = "trap: ".to_owned();
            m.append(t.as_str());
            Err(m)
        },
    }
}

/// The outcome of a query: its cells as texts.
pub fn run_prefix_query(reply: ExecReply) -> (r: Result<Vec<Vec<String>>, String>)
    ensures
        match reply {
            ExecReply::Rows(qr) => r matches Ok(rows) && rows_of(rows@) == table_texts(qr@.rows),
            _ => r matches Err(m) && ddl_text(reply) == Err::<(), Seq<char>>(m@),
        },
{
    match reply {
        ExecReply::Rows(qr) => Ok(render_table(&qr.rows)),
        ExecReply::Failed(e) => Err(core_duckerror_message(e)),
        ExecReply::Trapped(t) => {
            let mut m = "trap: ".to_owned();
            m.append(t.as_str());
            Err(m)
        },
    }
}

/// How far a declaration is.
#[derive(Debug)]
pub enum AliasPhase {
    /// The schema is being created.
    Schema,
    /// The functions of the namespace are being listed.
    Listing,
    /// The alias with this index is being made; so many have been made.
    Making { plan: Vec<AliasStatement>, next: usize, created: usize },
    /// The declaration is being stored; so many aliases have been made.
    Storing { created: usize },
    Finished,
}

/// The run of one declaration.
#[derive(Debug)]
pub struct AliasRun {
    pub alias: String,
    pub namespace: String,
    pub phase: AliasPhase,
}

#[derive(Debug)]
pub enum AliasAction {
    Execute { sql: String },
    /// Run the statement of the alias with this index of the run's plan.
    Make { index: usize },
    Finish(Result<usize, String>),
}

/// What a step leads to: the run, what to do, and what to note in the log.
#[derive(Debug)]
pub struct AliasStep {
    pub run: AliasRun,
    pub action: AliasAction,
    pub note: Option<String>,
}

pub open spec fn create_schema_sql(alias: Seq<char>) -> Seq<char> {
    "CREATE SCHEMA IF NOT EXISTS "@ + alias
}

pub open spec fn list_functions_sql(namespace: Seq<char>) -> Seq<char> {
    "SELECT DISTINCT function_name, function_type, COALESCE(array_to_string(parameters, ','), '') AS param_csv FROM duckdb_functions() WHERE schema_name = '"@
        + namespace
        + "' AND function_type IN ('scalar','aggregate','table_macro','scalar_macro','macro','table')"@
}

pub open spec fn store_sql(alias: Seq<char>, namespace: Seq<char>) -> Seq<char> {
    "INSERT OR REPLACE INTO ducklink.prefixes (alias, namespace) VALUES ('"@ + sql_escaped(alias)
        + "', '"@ + sql_escaped(namespace) + "')"@
}

impl AliasRun {
    /// The alias that is being made is one of the plan, and no more were made than
    /// were tried.
    pub open spec fn wf(&self) -> bool {
        match self.phase {
            AliasPhase::Making { plan, next, created } => next < plan@.len() && created <= next,
            _ => true,
        }
    }
}

/// The declaration ends.
pub open spec fn alias_ends(run: AliasRun, step: AliasStep) -> bool {
    &&& step.run.alias == run.alias
    &&& step.run.namespace == run.namespace
    &&& step.run.phase is Finished
}

/// The aliases from `next` on are still to be made.
pub open spec fn goes_to_make(
    run: AliasRun,
    plan: Seq<(Seq<char>, Seq<char>)>,
    next: int,
    created: int,
    step: AliasStep,
) -> bool {
    &&& step.run.alias == run.alias
    &&& step.run.namespace == run.namespace
    &&& if next < plan.len() {
        &&& step.run.phase matches AliasPhase::Making { plan: p, next: n, created: c }
        &&& views(p@) == plan
        &&& n == next
        &&& c == created
        &&& step.action == (AliasAction::Make { index: n })
    } else {
        &&& step.run.phase matches AliasPhase::Storing { created: c }
        &&& c == created
        &&& step.action matches AliasAction::Execute { sql }
        &&& sql@ == store_sql(run.alias@, run.namespace@)
    }
}

/// One step of a declaration. Without its schema, or without the list of functions, it
/// fails; an alias that cannot be made, and a declaration that cannot be stored, are
/// noted and passed over.
pub open spec fn alias_next(run: AliasRun, reply: ExecReply, step: AliasStep) -> bool {
    match run.phase {
        AliasPhase::Schema => match ddl_text(reply) {
            Ok(_) => {
                &&& step.run == (AliasRun { phase: AliasPhase::Listing, ..run })
                &&& step.action matches AliasAction::Execute { sql }
                &&& sql@ == list_functions_sql(run.namespace@)
                &&& step.note is None
            },
            Err(m) => {
                &&& alias_ends(run, step)
                &&& step.action matches AliasAction::Finish(Err(e))
                &&& e@ == m
                &&& step.note is None
            },
        },
        AliasPhase::Listing => match reply {
            ExecReply::Rows(qr) => {
                &&& goes_to_make(
                    run,
                    alias_plan(table_texts(qr@.rows), run.alias@, run.namespace@),
                    0,
                    0,
                    step,
                )
                &&& step.note is None
            },
            _ => {
                &&& alias_ends(run, step)
                &&& step.action matches AliasAction::Finish(Err(e))
                &&& ddl_text(reply) == Err::<(), Seq<char>>(e@)
                &&& step.note is None
            },
        },
        AliasPhase::Making { plan, next, created } => match ddl_text(reply) {
            Ok(_) => goes_to_make(run, views(plan@), next + 1, created + 1, step) && step.note is None,
            Err(m) => {
                &&& goes_to_make(run, views(plan@), next + 1, created as int, step)
                &&& view_opt(step.note) == Some(
                    "[ducklink_prefix] alias '"@ + run.alias@ + "."@ + plan@[next as int].name@
                        + "' skipped: "@ + m,
                )
            },
        },
        AliasPhase::Storing { created } => {
            &&& alias_ends(run, step)
            &&& step.action == AliasAction::Finish(Ok(created))
            &&& match ddl_text(reply) {
                Ok(_) => step.note is None,
                Err(m) => view_opt(step.note) == Some(
                    "[ducklink_prefix] persist ('"@ + run.alias@ + "', '"@ + run.namespace@
                        + "') failed: "@ + m + " (session aliases succeeded; reconnect won't restore)"@,
                ),
            }
        },
        AliasPhase::Finished => {
            &&& alias_ends(run, step)
            &&& step.action == AliasAction::Finish(Ok(0))
            &&& step.note is None
        },
    }
}

/// Begins a declaration with the creation of its schema.
pub fn begin_prefix_declaration(alias: &str, namespace: &str) -> (r: AliasStep)
    ensures
        r.run.wf(),
        r.run.alias@ == alias@,
        r.run.namespace@ == namespace@,
        r.run.phase is Schema,
        r.action matches AliasAction::Execute { sql } && sql@ == create_schema_sql(alias@),
        r.note is None,
{
    let mut sql = "CREATE SCHEMA IF NOT EXISTS ".to_owned();
    sql.append(alias);
    AliasStep {
        run: AliasRun {
            alias: alias.to_owned(),
            namespace: namespace.to_owned(),
            phase: AliasPhase::Schema,
        },
        action: AliasAction::Execute { sql },
        note: None,
    }
}

fn enter_make(
    alias: String,
    namespace: String,
    plan: Vec<AliasStatement>,
    next: usize,
    created: usize,
    note: Option<String>,
) -> (r: AliasStep)
    requires
        created <= next,
    ensures
        goes_to_make(
            (AliasRun { alias, namespace, phase: AliasPhase::Finished }),
            views(plan@),
            next as int,
            created as int,
            r,
        ),
        r.run.wf(),
        r.note == note,
{
    if next < plan.len() {
        AliasStep {
            run: AliasRun { alias, namespace, phase: AliasPhase::Making { plan, next, created } },
            action: AliasAction::Make { index: next },
            note,
        }
    } else {
        let mut sql = "INSERT OR REPLACE INTO ducklink.prefixes (alias, namespace) VALUES ('".to_owned();
        sql.append(sql_lit(alias.as_str()).as_str());
        sql.append("', '");
        sql.append(sql_lit(namespace.as_str()).as_str());
        sql.append("')");
        AliasStep {
            run: AliasRun { alias, namespace, phase: AliasPhase::Storing { created } },
            action: AliasAction::Execute { sql },
            note,
        }
    }
}

fn finish_alias(run: AliasRun, outcome: Result<usize, String>, note: Option<String>) -> (r: AliasStep)
    ensures
        alias_ends(run, r),
        r.run.wf(),
        r.action == AliasAction::Finish(outcome),
        r.note == note,
{
    AliasStep {
        run: AliasRun { alias: run.alias, namespace: run.namespace, phase: AliasPhase::Finished },
        action: AliasAction::Finish(outcome),
        note,
    }
}

/// Takes the answer of the core and says what is to be done next.
pub fn apply_prefix_declaration(run: AliasRun, reply: ExecReply) -> (r: AliasStep)
    requires
        run.wf(),
    ensures
        alias_next(run, reply, r),
        r.run.wf(),
{
    match run.phase {
        AliasPhase::Schema => match run_prefix_ddl(reply) {
            Ok(_) => {
                let mut sql =
                    "SELECT DISTINCT function_name, function_type, COALESCE(array_to_string(parameters, ','), '') AS param_csv FROM duckdb_functions() WHERE schema_name = '".to_owned();
                sql.append(run.namespace.as_str());
                sql.append(
                    "' AND function_type IN ('scalar','aggregate','table_macro','scalar_macro','macro','table')",
                );
                AliasStep {
                    run: AliasRun {
                        alias: run.alias,
                        namespace: run.namespace,
                        phase: AliasPhase::Listing,
                    },
                    action: AliasAction::Execute { sql },
                    note: None,
                }
            },
            Err(e) => finish_alias(
                AliasRun { alias: run.alias, namespace: run.namespace, phase: AliasPhase::Finished },
                Err(e),
                None,
            ),
        },
        AliasPhase::Listing => match run_prefix_query(reply) {
            Ok(rows) => {
                let plan = plan_aliases(&rows, run.alias.as_str(), run.namespace.as_str());
                enter_make(run.alias, run.namespace, plan, 0, 0, None)
            },
            Err(e) => finish_alias(
                AliasRun { alias: run.alias, namespace: run.namespace, phase: AliasPhase::Finished },
                Err(e),
                None,
            ),
        },
        AliasPhase::Making { plan, next, created } => {
            let total: usize = plan.len();
            assert(next < total);
            match run_prefix_ddl(reply) {
                Ok(_) => enter_make(run.alias, run.namespace, plan, next + 1, created + 1, None),
                Err(e) => {
                    let mut m = "[ducklink_prefix] alias '".to_owned();
                    m.append(run.alias.as_str());
                    m.append(".");
                    m.append(plan[next].name.as_str());
                    m.append("' skipped: ");
                    m.append(e.as_str());
                    enter_make(run.alias, run.namespace, plan, next + 1, created, Some(m))
                },
            }
        },
        AliasPhase::Storing { created } => {
            let note: Option<String> = match run_prefix_ddl(reply) {
                Ok(_) => None,
                Err(e) => {
                    let mut m = "[ducklink_prefix] persist ('".to_owned();
                    m.append(run.alias.as_str());
                    m.append("', '");
                    m.append(run.namespace.as_str());
                    m.append("') failed: ");
                    m.append(e.as_str());
                    m.append(" (session aliases succeeded; reconnect won't restore)");
                    Some(m)
                },
            };
            finish_alias(
                AliasRun { alias: run.alias, namespace: run.namespace, phase: AliasPhase::Finished },
                Ok(created),
                note,
            )
        },
        AliasPhase::Finished => finish_alias(
            AliasRun { alias: run.alias, namespace: run.namespace, phase: AliasPhase::Finished },
            Ok(0),
            None,
        ),
    }
}

// ---------------------------------------------------------------------------
// Laws
// ---------------------------------------------------------------------------

/// No name and arity is aliased twice, and every aliased name is an identifier.
pub proof fn law_aliases_are_distinct(rows: Seq<Seq<Seq<char>>>)
    ensures
        taken(rows).no_duplicates(),
        forall|i: int| 0 <= i < taken(rows).len() ==> is_safe_ident((#[trigger] taken(rows)[i]).0),
    decreases rows.len(),
{
    if rows.len() > 0 {
        law_aliases_are_distinct(rows.drop_last());
    }
}

/// There are never more alias statements than names and arities, and each is for a
/// name that is an identifier.
pub proof fn law_alias_plan_is_bounded(
    rows: Seq<Seq<Seq<char>>>,
    alias: Seq<char>,
    namespace: Seq<char>,
)
    ensures
        alias_plan(rows, alias, namespace).len() <= taken(rows).len() <= rows.len(),
        forall|i: int|
            0 <= i < alias_plan(rows, alias, namespace).len() ==> is_safe_ident(
                (#[trigger] alias_plan(rows, alias, namespace)[i]).0,
            ),
    decreases rows.len(),
{
    if rows.len() > 0 {
        law_alias_plan_is_bounded(rows.drop_last(), alias, namespace);
    }
}

/// An alias takes a parameter under its own name where that is an identifier, and under
/// "_a" and its index where it is not.
pub proof fn law_alias_parameters(params: Seq<Seq<char>>, i: int)
    requires
        0 <= i < params.len(),
    ensures
        alias_args(params).len() == params.len(),
        is_safe_ident(params[i]) ==> alias_args(params)[i] == params[i],
        !is_safe_ident(params[i]) ==> alias_args(params)[i] == "_a"@ + decimal_of(i),
{
}

/// An alias of a function or of a table function hands exactly its own parameters, in their
/// order, to the function of the same name in the namespace. An alias of an aggregate with
/// one parameter hands the list of its values to the aggregate. No other kind has one.
pub proof fn law_alias_forwards_its_parameters(
    ftype: Seq<char>,
    alias: Seq<char>,
    name: Seq<char>,
    namespace: Seq<char>,
    params: Seq<Seq<char>>,
)
    ensures
        ({
            let list = join_of(alias_args(params), ", "@);
            let made = alias_macro(ftype, alias, name, namespace, params);
            let scalar = ftype == "scalar"@ || ftype == "scalar_macro"@ || ftype == "macro"@;
            let table = ftype == "table"@ || ftype == "table_macro"@;
            let aggregate = ftype == "aggregate"@ && params.len() == 1;
            &&& scalar ==> made == Some(
                "CREATE OR REPLACE MACRO "@ + alias + "."@ + name + "("@ + list + ") AS "@ + (
                namespace + "."@ + name) + "("@ + list + ")"@,
            )
            &&& table ==> made == Some(
                "CREATE OR REPLACE MACRO "@ + alias + "."@ + name + "("@ + list
                    + ") AS TABLE SELECT * FROM "@ + (namespace + "."@ + name) + "("@ + list + ")"@,
            )
            &&& aggregate ==> made == Some(
                "CREATE OR REPLACE MACRO "@ + alias + "."@ + name + "("@ + list
                    + ") AS list_aggregate(list("@ + list + "), '"@ + (namespace + "."@ + name) + "')"@,
            )
            &&& !scalar && !table && !aggregate ==> made is None
        }),
{
    reveal_strlit("scalar");
    reveal_strlit("scalar_macro");
    reveal_strlit("macro");
    reveal_strlit("table");
    reveal_strlit("table_macro");
    reveal_strlit("aggregate");
    assert("aggregate"@.len() == 9 && "aggregate"@[0] == 'a');
    assert("scalar"@.len() == 6 && "scalar"@[0] == 's');
    assert("scalar_macro"@.len() == 12 && "scalar_macro"@[0] == 's');
    assert("macro"@.len() == 5 && "macro"@[0] == 'm');
    assert("table"@.len() == 5 && "table"@[0] == 't');
    assert("table_macro"@.len() == 11 && "table_macro"@[0] == 't');
    if params.len() == 1 {
        assert(join_of(alias_args(params), ", "@) == alias_args(params)[0]);
    }
}

/// A name with a number of parameters is used up by the first row that has both, whatever
/// came of it.
pub proof fn law_taken_names(rows: Seq<Seq<Seq<char>>>, key: (Seq<char>, nat))
    ensures
        taken(rows).contains(key) <==> exists|i: int|
            0 <= i < rows.len() && is_safe_ident(cell(#[trigger] rows[i], 0)) && key == (
                cell(rows[i], 0),
                listed_params(rows[i]).len(),
            ),
    decreases rows.len(),
{
    if rows.len() > 0 {
        let front = rows.drop_last();
        let row = rows.last();
        let own = (cell(row, 0), listed_params(row).len());
        law_taken_names(front, key);
        if taken(rows).contains(key) {
            if taken(front).contains(key) {
                let i = choose|i: int|
                    0 <= i < front.len() && is_safe_ident(cell(#[trigger] front[i], 0)) && key == (
                        cell(front[i], 0),
                        listed_params(front[i]).len(),
                    );
                assert(rows[i] == front[i]);
            } else {
                let j = choose|j: int| 0 <= j < taken(rows).len() && taken(rows)[j] == key;
                if j < taken(front).len() {
                    assert(taken(front)[j] == key);
                }
                assert(key == own);
                assert(rows[rows.len() - 1] == row);
            }
        }
        if exists|i: int|
            0 <= i < rows.len() && is_safe_ident(cell(#[trigger] rows[i], 0)) && key == (
                cell(rows[i], 0),
                listed_params(rows[i]).len(),
            ) {
            let i = choose|i: int|
                0 <= i < rows.len() && is_safe_ident(cell(#[trigger] rows[i], 0)) && key == (
                    cell(rows[i], 0),
                    listed_params(rows[i]).len(),
                );
            if i < front.len() {
                assert(front[i] == rows[i]);
                let j = choose|j: int| 0 <= j < taken(front).len() && taken(front)[j] == key;
                assert(taken(rows)[j] == key);
            } else if taken(front).contains(own) {
                let j = choose|j: int| 0 <= j < taken(front).len() && taken(front)[j] == own;
                assert(taken(rows)[j] == key);
            } else {
                assert(taken(rows)[taken(front).len() as int] == key);
            }
        }
    }
}

/// The plan makes an alias for each listed function with a name that can be written and
/// that no earlier row has with as many parameters, provided that its kind can have one;
/// and it makes no other.
pub proof fn law_plan_covers_the_listing(
    rows: Seq<Seq<Seq<char>>>,
    alias: Seq<char>,
    namespace: Seq<char>,
    r: int,
)
    requires
        0 <= r < rows.len(),
    ensures
        ({
            let name = cell(rows[r], 0);
            let params = listed_params(rows[r]);
            let fresh = forall|i: int|
                0 <= i < r ==> cell(#[trigger] rows[i], 0) != name || listed_params(rows[i]).len()
                    != params.len();
            is_safe_ident(name) && fresh && alias_macro(cell(rows[r], 1), alias, name, namespace, params)
                is Some ==> alias_plan(rows, alias, namespace).contains(
                (name, alias_macro(cell(rows[r], 1), alias, name, namespace, params)->0),
            )
        }),
        forall|k: int|
            0 <= k < alias_plan(rows, alias, namespace).len() ==> exists|i: int|
                0 <= i < rows.len() && is_safe_ident(cell(#[trigger] rows[i], 0)) && alias_macro(
                    cell(rows[i], 1),
                    alias,
                    cell(rows[i], 0),
                    namespace,
                    listed_params(rows[i]),
                ) == Some((#[trigger] alias_plan(rows, alias, namespace)[k]).1) && alias_plan(
                    rows,
                    alias,
                    namespace,
                )[k].0 == cell(rows[i], 0),
    decreases rows.len(),
{
    let front = rows.drop_last();
    let row = rows.last();
    let name = cell(rows[r], 0);
    let params = listed_params(rows[r]);
    let plan = alias_plan(rows, alias, namespace);
    let before = alias_plan(front, alias, namespace);
    if front.len() > 0 {
        let q = if r < front.len() { r } else { 0 };
        law_plan_covers_the_listing(front, alias, namespace, q);
    } else {
        assert(before.len() == 0);
    }
    assert forall|k: int| 0 <= k < plan.len() implies exists|i: int|
        0 <= i < rows.len() && is_safe_ident(cell(#[trigger] rows[i], 0)) && alias_macro(
            cell(rows[i], 1),
            alias,
            cell(rows[i], 0),
            namespace,
            listed_params(rows[i]),
        ) == Some((#[trigger] plan[k]).1) && plan[k].0 == cell(rows[i], 0) by {
        if k < before.len() {
            assert(plan[k] == before[k]);
            let i = choose|i: int|
                0 <= i < front.len() && is_safe_ident(cell(#[trigger] front[i], 0)) && alias_macro(
                    cell(front[i], 1),
                    alias,
                    cell(front[i], 0),
                    namespace,
                    listed_params(front[i]),
                ) == Some(before[k].1) && before[k].0 == cell(front[i], 0);
            assert(rows[i] == front[i]);
        } else {
            assert(rows[rows.len() - 1] == row);
        }
    }
    let fresh = forall|i: int|
        0 <= i < r ==> cell(#[trigger] rows[i], 0) != name || listed_params(rows[i]).len()
            != params.len();
    if is_safe_ident(name) && fresh && alias_macro(cell(rows[r], 1), alias, name, namespace, params) is Some {
        let made = (name, alias_macro(cell(rows[r], 1), alias, name, namespace, params)->0);
        if r < front.len() {
            assert(front[r] == rows[r]);
            assert forall|i: int| 0 <= i < r implies cell(#[trigger] front[i], 0) != name
                || listed_params(front[i]).len() != params.len() by {
                assert(rows[i] == front[i]);
            }
            let k = choose|k: int| 0 <= k < before.len() && before[k] == made;
            assert(plan[k] == made);
        } else {
            law_taken_names(front, (name, params.len()));
            assert forall|i: int| 0 <= i < front.len() implies cell(#[trigger] front[i], 0) != name
                || listed_params(front[i]).len() != params.len() by {
                assert(rows[i] == front[i]);
            }
            assert(plan.last() == made);
            assert(plan[plan.len() - 1] == made);
        }
    }
}

/// The statements of a declaration: the schema has the name of the alias, the functions of
/// the namespace are listed, and the pair is stored with its quotes doubled.
pub proof fn law_declaration_statements(alias: Seq<char>, namespace: Seq<char>)
    ensures
        create_schema_sql(alias) == "CREATE SCHEMA IF NOT EXISTS "@ + alias,
        list_functions_sql(namespace)
            == "SELECT DISTINCT function_name, function_type, COALESCE(array_to_string(parameters, ','), '') AS param_csv FROM duckdb_functions() WHERE schema_name = '"@
            + namespace
            + "' AND function_type IN ('scalar','aggregate','table_macro','scalar_macro','macro','table')"@,
        store_sql(alias, namespace)
            == "INSERT OR REPLACE INTO ducklink.prefixes (alias, namespace) VALUES ('"@ + replace_of(
            alias,
            '\'',
            "''"@,
        ) + "', '"@ + replace_of(namespace, '\'', "''"@) + "')"@,
{
}

/// A reply counts as a failure exactly where no rows came, and its text is the error's
/// message, or "trap: " and what was trapped.
pub proof fn law_reply_text(reply: ExecReply)
    ensures
        match (reply, ddl_text(reply)) {
            (ExecReply::Rows(_), Ok(_)) => true,
            (ExecReply::Failed(e), Err(m)) => m == message_of(e@),
            (ExecReply::Trapped(t), Err(m)) => m == "trap: "@ + t@,
            _ => false,
        },
{
}

/// The aliases are made one by one, in the order of the plan. One that fails is skipped
/// with a note and not counted; at the end the number of those made is handed out, also
/// where storing the declaration failed.
pub proof fn law_declaration_counts_what_it_made(run: AliasRun, reply: ExecReply, step: AliasStep)
    requires
        run.wf(),
        alias_next(run, reply, step),
    ensures
        step.run.alias == run.alias,
        step.run.namespace == run.namespace,
        match run.phase {
            AliasPhase::Schema => if reply is Rows {
                step.run.phase is Listing && (step.action matches AliasAction::Execute { sql } && sql@
                    == list_functions_sql(run.namespace@))
            } else {
                step.action matches AliasAction::Finish(Err(_))
            },
            AliasPhase::Listing => match step.run.phase {
                AliasPhase::Making { next, created, .. } => reply is Rows && next == 0 && created == 0
                    && step.action == (AliasAction::Make { index: 0 }),
                AliasPhase::Storing { created } => reply is Rows && created == 0,
                _ => !(reply is Rows) && (step.action matches AliasAction::Finish(Err(_))),
            },
            AliasPhase::Making { plan, next, created } => {
                let made = if reply is Rows { created + 1 } else { created as int };
                &&& step.note is None <==> reply is Rows
                &&& match step.run.phase {
                    AliasPhase::Making { plan: p, next: n, created: c } => n == next + 1 && c == made
                        && views(p@) == views(plan@) && step.action == (AliasAction::Make { index: n }),
                    AliasPhase::Storing { created: c } => next + 1 == plan@.len() && c == made && (
                    step.action matches AliasAction::Execute { sql } && sql@ == store_sql(
                        run.alias@,
                        run.namespace@,
                    )),
                    _ => false,
                }
            },
            AliasPhase::Storing { created } => step.action == AliasAction::Finish(Ok(created)) && (
            step.note is None <==> reply is Rows),
            AliasPhase::Finished => step.action == AliasAction::Finish(Ok(0)),
        },
{
    if let AliasPhase::Making { plan, .. } = run.phase {
        assert(views(plan@).len() == plan@.len());
    }
}

/// The notes of a declaration name the alias that was skipped, or the pair that could not be
/// stored, and why.
pub proof fn law_declaration_notes(run: AliasRun, reply: ExecReply, step: AliasStep)
    requires
        run.wf(),
        alias_next(run, reply, step),
    ensures
        match (run.phase, reply, step.note) {
            (AliasPhase::Making { plan, next, .. }, ExecReply::Failed(e), Some(n)) => n@
                == "[ducklink_prefix] alias '"@ + run.alias@ + "."@ + plan@[next as int].name@
                + "' skipped: "@ + message_of(e@),
            (AliasPhase::Making { plan, next, .. }, ExecReply::Trapped(t), Some(n)) => n@
                == "[ducklink_prefix] alias '"@ + run.alias@ + "."@ + plan@[next as int].name@
                + "' skipped: "@ + ("trap: "@ + t@),
            (AliasPhase::Storing { .. }, ExecReply::Failed(e), Some(n)) => n@
                == "[ducklink_prefix] persist ('"@ + run.alias@ + "', '"@ + run.namespace@
                + "') failed: "@ + message_of(e@)
                + " (session aliases succeeded; reconnect won't restore)"@,
            (AliasPhase::Storing { .. }, ExecReply::Trapped(t), Some(n)) => n@
                == "[ducklink_prefix] persist ('"@ + run.alias@ + "', '"@ + run.namespace@
                + "') failed: "@ + ("trap: "@ + t@)
                + " (session aliases succeeded; reconnect won't restore)"@,
            (AliasPhase::Making { .. }, ExecReply::Rows(_), None) => true,
            (AliasPhase::Storing { .. }, ExecReply::Rows(_), None) => true,
            (AliasPhase::Making { .. }, _, _) => false,
            (AliasPhase::Storing { .. }, _, _) => false,
            (_, _, note) => note is None,
        },
{
}

/// The view of an alias statement is its name and its text.
pub proof fn law_alias_statement_view(s: AliasStatement)
    ensures
        s@.0 == s.name@,
        s@.1 == s.sql@,
{
}

/// A cell of a listing is the text at its place, or nothing where the row is too short.
pub proof fn law_listing_cells(row: Seq<Seq<char>>, i: int)
    ensures
        0 <= i < row.len() ==> cell(row, i) == row[i],
        i >= row.len() ==> cell(row, i).len() == 0,
        row.len() > 2 ==> listed_params(row) == list_items(row[2], ','),
{
}

/// The plan is made from the listed functions, for the alias and the namespace of the
/// declaration.
pub proof fn law_plan_is_made_from_the_listing(run: AliasRun, qr: QueryResult, step: AliasStep)
    requires
        run.phase is Listing,
        alias_next(run, ExecReply::Rows(qr), step),
    ensures
        ({
            let plan = alias_plan(table_texts(qr@.rows), run.alias@, run.namespace@);
            match step.run.phase {
                AliasPhase::Making { plan: p, .. } => views(p@) == plan && plan.len() > 0,
                AliasPhase::Storing { .. } => plan.len() == 0 && (step.action matches
                    AliasAction::Execute { sql } && sql@ == store_sql(run.alias@, run.namespace@)),
                _ => false,
            }
        }),
{
}

} // verus!
