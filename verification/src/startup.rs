//! What happens when the first connection opens: extensions are loaded, and the
//! `ducklink` schema is set up.
use crate::ident::{build_load_sql, is_loadable, load_sql};
use crate::model::views;
use crate::settings::{autoload_list, autoload_names, AutoloadItem};
use crate::sibling::ExecReply;
use vstd::prelude::*;

verus! {

// ---------------------------------------------------------------------------
// Loading by setting
// ---------------------------------------------------------------------------

/// The `LOAD` statements for the names that can be spliced into one, in order.
pub open spec fn load_statements(names: Seq<Seq<char>>) -> Seq<Seq<char>>
    decreases names.len(),
{
    if names.len() == 0 {
        Seq::empty()
    } else if is_loadable(names.last()) {
        load_statements(names.drop_last()).push(load_sql(names.last()))
    } else {
        load_statements(names.drop_last())
    }
}

/// The statements to run when a connection opens: once, and only where a connection is
/// there to run them on. `done` tells whether this has happened before.
pub fn maybe_autoload(done: &mut bool, setting: Option<&str>, connected: bool) -> (r: Option<Vec<String>>)
    ensures
        *final(done),
        match r {
            Some(statements) => !*old(done) && connected && views(statements@) == load_statements(
                autoload_list(
                    match setting {
                        Some(s) => Some(s@),
                        None => None,
                    },
                ),
            ),
            None => *old(done) || !connected,
        },
{
    if *done {
        return None;
    }
    *done = true;
    if !connected {
        return None;
    }
    let items = autoload_names(setting);
    let ghost names = autoload_list(
        match setting {
            Some(s) => Some(s@),
            None => None,
        },
    );
    let mut out: Vec<String> = Vec::new();
    let mut i: usize = 0;
    assert(views(out@) =~= load_statements(names.take(0)));
    while i < items.len()
        invariant
            i <= items@.len() == names.len(),
            forall|j: int|
                0 <= j < items@.len() ==> (#[trigger] items@[j]).name() == names[j] && (items@[j] is Load
                    <==> is_loadable(names[j])),
            views(out@) == load_statements(names.take(i as int)),
        decreases items@.len() - i,
    {
        let ghost before = out@;
        assert(names.take(i + 1).drop_last() =~= names.take(i as int));
        assert(names.take(i + 1).last() == names[i as int]);
        assert(items@[i as int].name() == names[i as int]);
        if let AutoloadItem::Load(name) = &items[i] {
            out.push(build_load_sql(name.as_str()));
            assert(views(out@) =~= views(before).push(load_sql(name@)));
        }
        i += 1;
    }
    assert(names.take(names.len() as int) =~= names);
    Some(out)
}

// ---------------------------------------------------------------------------
// The discovery schema
// ---------------------------------------------------------------------------

pub const CREATE_SCHEMA: &'static str = "CREATE SCHEMA IF NOT EXISTS ducklink";

pub const CREATE_PREFIXES: &'static str = "CREATE TABLE IF NOT EXISTS ducklink.prefixes ( alias VARCHAR PRIMARY KEY, namespace VARCHAR NOT NULL)";

pub const CREATE_MODULES: &'static str = "CREATE OR REPLACE VIEW ducklink.modules AS SELECT CAST(NULL AS VARCHAR) AS name, CAST(NULL AS VARCHAR) AS version, CAST(NULL AS VARCHAR) AS description, CAST(NULL AS VARCHAR) AS categories, CAST(NULL AS BOOLEAN) AS loaded, CAST(NULL AS BOOLEAN) AS native_available, CAST(NULL AS INTEGER) AS scalars, CAST(NULL AS INTEGER) AS tables, CAST(NULL AS INTEGER) AS aggregates, CAST(NULL AS VARCHAR) AS capabilities, CAST(NULL AS BOOLEAN) AS compatible WHERE FALSE";

pub const CREATE_FUNCTIONS: &'static str = "CREATE OR REPLACE VIEW ducklink.functions AS SELECT CAST(NULL AS VARCHAR) AS module, CAST(NULL AS VARCHAR) AS name, CAST(NULL AS VARCHAR) AS kind, CAST(NULL AS VARCHAR) AS arguments, CAST(NULL AS VARCHAR) AS returns, CAST(NULL AS BOOLEAN) AS loaded WHERE FALSE";

pub const CREATE_HOST: &'static str = "CREATE OR REPLACE VIEW ducklink.host AS SELECT CAST(NULL AS VARCHAR) AS wasm_abi, CAST(NULL AS VARCHAR) AS duckdb_version WHERE FALSE";

pub const CREATE_HOST_CAPABILITIES: &'static str = "CREATE OR REPLACE VIEW ducklink.host_capabilities AS SELECT CAST(NULL AS VARCHAR) AS name, CAST(NULL AS BOOLEAN) AS available, CAST(NULL AS VARCHAR) AS detail WHERE FALSE";

pub const CREATE_CACHE: &'static str = "CREATE OR REPLACE VIEW ducklink.cache AS SELECT CAST(NULL AS VARCHAR) AS digest, CAST(NULL AS VARCHAR) AS name, CAST(NULL AS BIGINT) AS bytes, CAST(NULL AS TIMESTAMP) AS modified, CAST(NULL AS VARCHAR) AS path WHERE FALSE";

pub const CREATE_MODULE_COMPATIBILITY: &'static str = "CREATE OR REPLACE VIEW ducklink.module_compatibility AS SELECT CAST(NULL AS VARCHAR) AS module, CAST(NULL AS VARCHAR) AS module_generation, CAST(NULL AS VARCHAR) AS host_generation, CAST(NULL AS VARCHAR) AS lifecycle, CAST(NULL AS BOOLEAN) AS runnable, CAST(NULL AS BOOLEAN) AS selected WHERE FALSE";

pub const CREATE_EVENTS: &'static str = "CREATE OR REPLACE VIEW ducklink.events AS SELECT CAST(NULL AS BIGINT) AS seq, CAST(NULL AS TIMESTAMP) AS ts, CAST(NULL AS VARCHAR) AS kind, CAST(NULL AS VARCHAR) AS module, CAST(NULL AS VARCHAR) AS detail WHERE FALSE";

pub const CREATE_DOCS: &'static str = "CREATE OR REPLACE VIEW ducklink.docs AS SELECT CAST(NULL AS VARCHAR) AS module, CAST(NULL AS VARCHAR) AS function, CAST(NULL AS VARCHAR) AS kind, CAST(NULL AS VARCHAR) AS signature, CAST(NULL AS VARCHAR) AS summary, CAST(NULL AS VARCHAR) AS description, CAST(NULL AS VARCHAR) AS example, CAST(NULL AS VARCHAR) AS tags, CAST(NULL AS BOOLEAN) AS loaded WHERE FALSE";

pub const CREATE_SEARCH: &'static str = "CREATE OR REPLACE MACRO ducklink.search(query) AS TABLE SELECT CAST(NULL AS VARCHAR) AS module, CAST(NULL AS VARCHAR) AS function, CAST(NULL AS VARCHAR) AS kind, CAST(NULL AS VARCHAR) AS signature, CAST(NULL AS VARCHAR) AS summary, CAST(NULL AS VARCHAR) AS tags, CAST(NULL AS BIGINT) AS score WHERE FALSE";

/// Asks whether the core knows the scalar function `ducklink_prefix`.
pub const PROBE_PREFIX: &'static str = "SELECT 1 FROM duckdb_functions() WHERE function_name = 'ducklink_prefix' AND function_type = 'scalar' LIMIT 1";

/// The short form of `ducklink_prefix`.
pub const CREATE_PREFIX_MACRO: &'static str = "CREATE OR REPLACE MACRO PREFIX(alias, namespace) AS ducklink_prefix(alias, namespace)";

/// The statements that set the schema up, in order.
pub open spec fn schema_script() -> Seq<&'static str> {
    seq![
        CREATE_SCHEMA,
        CREATE_PREFIXES,
        CREATE_MODULES,
        CREATE_FUNCTIONS,
        CREATE_HOST,
        CREATE_HOST_CAPABILITIES,
        CREATE_CACHE,
        CREATE_MODULE_COMPATIBILITY,
        CREATE_EVENTS,
        CREATE_DOCS,
        CREATE_SEARCH,
    ]
}

pub fn schema_statements() -> (r: Vec<&'static str>)
    ensures
        r@ == schema_script(),
{
    let mut out: Vec<&'static str> = Vec::new();
    out.push(CREATE_SCHEMA);
    out.push(CREATE_PREFIXES);
    out.push(CREATE_MODULES);
    out.push(CREATE_FUNCTIONS);
    out.push(CREATE_HOST);
    out.push(CREATE_HOST_CAPABILITIES);
    out.push(CREATE_CACHE);
    out.push(CREATE_MODULE_COMPATIBILITY);
    out.push(CREATE_EVENTS);
    out.push(CREATE_DOCS);
    out.push(CREATE_SEARCH);
    assert(out@ =~= schema_script());
    out
}

/// Where the set-up stands.
#[derive(Clone, Copy, Debug, PartialEq, Eq, Structural)]
pub enum SchemaState {
    /// The statement with this number is running.
    Creating(usize),
    /// The core is asked for the scalar function `ducklink_prefix`.
    Probing,
    /// The macro for it is created.
    CreatingMacro,
    Finished,
}

/// What to do next.
#[derive(Debug)]
pub enum SchemaAction {
    Run(&'static str),
    Finish,
}

/// The core knows the scalar function: the probe has a row.
pub open spec fn found(reply: ExecReply) -> bool {
    reply matches ExecReply::Rows(q) && q@.rows.len() > 0
}

pub fn ducklink_prefix_scalar_registered(reply: &ExecReply) -> (r: bool)
    ensures
        r == found(*reply),
{
    match reply {
        ExecReply::Rows(q) => q.rows.len() > 0,
        _ => false,
    }
}

/// One step of the set-up. A failing statement does not stop it; the macro is created
/// only where the function behind it is there.
pub open spec fn schema_next(state: SchemaState, reply: ExecReply) -> (SchemaState, SchemaAction) {
    match state {
        SchemaState::Creating(n) => if n + 1 < schema_script().len() {
            (
                SchemaState::Creating((n + 1) as usize),
                SchemaAction::Run(schema_script()[n + 1]),
            )
        } else {
            (SchemaState::Probing, SchemaAction::Run(PROBE_PREFIX))
        },
        SchemaState::Probing => if found(reply) {
            (SchemaState::CreatingMacro, SchemaAction::Run(CREATE_PREFIX_MACRO))
        } else {
            (SchemaState::Finished, SchemaAction::Finish)
        },
        _ => (SchemaState::Finished, SchemaAction::Finish),
    }
}

/// Begins the set-up of the schema.
pub fn create_ducklink_schema() -> (r: (SchemaState, SchemaAction))
    ensures
        r == (SchemaState::Creating(0), SchemaAction::Run(CREATE_SCHEMA)),
{
    (SchemaState::Creating(0), SchemaAction::Run(CREATE_SCHEMA))
}

/// Goes on with the set-up after the core has answered.
pub fn schema_step(state: SchemaState, reply: &ExecReply) -> (r: (SchemaState, SchemaAction))
    ensures
        r == schema_next(state, *reply),
{
    match state {
        SchemaState::Creating(n) => {
            let statements = schema_statements();
            if n < statements.len() - 1 {
                (SchemaState::Creating(n + 1), SchemaAction::Run(statements[n + 1]))
            } else {
                (SchemaState::Probing, SchemaAction::Run(PROBE_PREFIX))
            }
        },
        SchemaState::Probing => {
            if ducklink_prefix_scalar_registered(reply) {
                (SchemaState::CreatingMacro, SchemaAction::Run(CREATE_PREFIX_MACRO))
            } else {
                (SchemaState::Finished, SchemaAction::Finish)
            }
        },
        _ => (SchemaState::Finished, SchemaAction::Finish),
    }
}

// ---------------------------------------------------------------------------
// Laws
// ---------------------------------------------------------------------------

/// Every `LOAD` that the setting leads to is for one of its names, and that name is a
/// plain one.
pub proof fn law_autoload_splices_only_names(names: Seq<Seq<char>>, i: int)
    requires
        0 <= i < load_statements(names).len(),
    ensures
        exists|name: Seq<char>|
            #![trigger load_sql(name)]
            names.contains(name) && is_loadable(name) && load_statements(names)[i] == load_sql(name),
    decreases names.len(),
{
    let rest = names.drop_last();
    let before = load_statements(rest);
    if is_loadable(names.last()) && i == before.len() {
        assert(names.contains(names.last())) by {
            assert(names[names.len() - 1] == names.last());
        }
        assert(load_statements(names)[i] == load_sql(names.last()));
    } else {
        law_autoload_splices_only_names(rest, i);
        let name = choose|name: Seq<char>|
            #![trigger load_sql(name)]
            rest.contains(name) && is_loadable(name) && before[i] == load_sql(name);
        let k = choose|k: int| 0 <= k < rest.len() && rest[k] == name;
        assert(names[k] == name);
        assert(load_statements(names)[i] == load_sql(name));
    }
}

/// The names are loaded one by one, in their order; a name that cannot stand in the
/// statement is left out.
pub proof fn law_autoload_is_by_name(a: Seq<Seq<char>>, b: Seq<Seq<char>>, name: Seq<char>)
    ensures
        load_statements(a + b) == load_statements(a) + load_statements(b),
        is_loadable(name) ==> load_statements(seq![name]) == seq!["LOAD "@ + name + ";"@],
        !is_loadable(name) ==> load_statements(seq![name]).len() == 0,
    decreases b.len(),
{
    assert(seq![name].drop_last() =~= Seq::<Seq<char>>::empty());
    assert(seq![name].last() == name);
    assert(load_statements(Seq::<Seq<char>>::empty()) =~= Seq::<Seq<char>>::empty());
    assert(Seq::<Seq<char>>::empty().push(load_sql(name)) =~= seq![load_sql(name)]);
    if b.len() == 0 {
        assert(a + b =~= a);
        assert(load_statements(a) + load_statements(b) =~= load_statements(a));
    } else {
        assert((a + b).drop_last() =~= a + b.drop_last());
        law_autoload_is_by_name(a, b.drop_last(), name);
        assert(load_statements(a + b) =~= load_statements(a) + load_statements(b));
    }
}

/// The schema is created statement by statement, whatever came of the one before. Then the
/// core is asked for the scalar function, and the macro is created exactly where a row comes
/// back.
pub proof fn law_schema_runs_every_statement(state: SchemaState, reply: ExecReply)
    ensures
        schema_script().len() == 11,
        match (state, schema_next(state, reply)) {
            (SchemaState::Creating(n), (SchemaState::Creating(m), SchemaAction::Run(sql))) => m == n + 1
                && m < 11 && sql == schema_script()[m as int],
            (SchemaState::Creating(n), (SchemaState::Probing, SchemaAction::Run(sql))) => n >= 10
                && sql@ == PROBE_PREFIX@,
            (SchemaState::Probing, (SchemaState::CreatingMacro, SchemaAction::Run(sql))) => (reply
                matches ExecReply::Rows(q) && q@.rows.len() > 0) && sql@ == CREATE_PREFIX_MACRO@,
            (SchemaState::Probing, (SchemaState::Finished, SchemaAction::Finish)) => !(reply matches
                ExecReply::Rows(q) && q@.rows.len() > 0),
            (SchemaState::CreatingMacro, (SchemaState::Finished, SchemaAction::Finish)) => true,
            (SchemaState::Finished, (SchemaState::Finished, SchemaAction::Finish)) => true,
            _ => false,
        },
{
}

/// The statements of the schema, word for word: the schema and the table of prefixes, empty
/// views with the columns that a host fills, and the empty search.
pub proof fn law_schema_statements()
    ensures
        schema_script() == seq![
            "CREATE SCHEMA IF NOT EXISTS ducklink",
            "CREATE TABLE IF NOT EXISTS ducklink.prefixes ( alias VARCHAR PRIMARY KEY, namespace VARCHAR NOT NULL)",
            "CREATE OR REPLACE VIEW ducklink.modules AS SELECT CAST(NULL AS VARCHAR) AS name, CAST(NULL AS VARCHAR) AS version, CAST(NULL AS VARCHAR) AS description, CAST(NULL AS VARCHAR) AS categories, CAST(NULL AS BOOLEAN) AS loaded, CAST(NULL AS BOOLEAN) AS native_available, CAST(NULL AS INTEGER) AS scalars, CAST(NULL AS INTEGER) AS tables, CAST(NULL AS INTEGER) AS aggregates, CAST(NULL AS VARCHAR) AS capabilities, CAST(NULL AS BOOLEAN) AS compatible WHERE FALSE",
            "CREATE OR REPLACE VIEW ducklink.functions AS SELECT CAST(NULL AS VARCHAR) AS module, CAST(NULL AS VARCHAR) AS name, CAST(NULL AS VARCHAR) AS kind, CAST(NULL AS VARCHAR) AS arguments, CAST(NULL AS VARCHAR) AS returns, CAST(NULL AS BOOLEAN) AS loaded WHERE FALSE",
            "CREATE OR REPLACE VIEW ducklink.host AS SELECT CAST(NULL AS VARCHAR) AS wasm_abi, CAST(NULL AS VARCHAR) AS duckdb_version WHERE FALSE",
            "CREATE OR REPLACE VIEW ducklink.host_capabilities AS SELECT CAST(NULL AS VARCHAR) AS name, CAST(NULL AS BOOLEAN) AS available, CAST(NULL AS VARCHAR) AS detail WHERE FALSE",
            "CREATE OR REPLACE VIEW ducklink.cache AS SELECT CAST(NULL AS VARCHAR) AS digest, CAST(NULL AS VARCHAR) AS name, CAST(NULL AS BIGINT) AS bytes, CAST(NULL AS TIMESTAMP) AS modified, CAST(NULL AS VARCHAR) AS path WHERE FALSE",
            "CREATE OR REPLACE VIEW ducklink.module_compatibility AS SELECT CAST(NULL AS VARCHAR) AS module, CAST(NULL AS VARCHAR) AS module_generation, CAST(NULL AS VARCHAR) AS host_generation, CAST(NULL AS VARCHAR) AS lifecycle, CAST(NULL AS BOOLEAN) AS runnable, CAST(NULL AS BOOLEAN) AS selected WHERE FALSE",
            "CREATE OR REPLACE VIEW ducklink.events AS SELECT CAST(NULL AS BIGINT) AS seq, CAST(NULL AS TIMESTAMP) AS ts, CAST(NULL AS VARCHAR) AS kind, CAST(NULL AS VARCHAR) AS module, CAST(NULL AS VARCHAR) AS detail WHERE FALSE",
            "CREATE OR REPLACE VIEW ducklink.docs AS SELECT CAST(NULL AS VARCHAR) AS module, CAST(NULL AS VARCHAR) AS function, CAST(NULL AS VARCHAR) AS kind, CAST(NULL AS VARCHAR) AS signature, CAST(NULL AS VARCHAR) AS summary, CAST(NULL AS VARCHAR) AS description, CAST(NULL AS VARCHAR) AS example, CAST(NULL AS VARCHAR) AS tags, CAST(NULL AS BOOLEAN) AS loaded WHERE FALSE",
            "CREATE OR REPLACE MACRO ducklink.search(query) AS TABLE SELECT CAST(NULL AS VARCHAR) AS module, CAST(NULL AS VARCHAR) AS function, CAST(NULL AS VARCHAR) AS kind, CAST(NULL AS VARCHAR) AS signature, CAST(NULL AS VARCHAR) AS summary, CAST(NULL AS VARCHAR) AS tags, CAST(NULL AS BIGINT) AS score WHERE FALSE",
        ],
        PROBE_PREFIX@ == "SELECT 1 FROM duckdb_functions() WHERE function_name = 'ducklink_prefix' AND function_type = 'scalar' LIMIT 1"@,
        CREATE_PREFIX_MACRO@ == "CREATE OR REPLACE MACRO PREFIX(alias, namespace) AS ducklink_prefix(alias, namespace)"@,
{
}

} // verus!
