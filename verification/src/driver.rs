//! A core that stays open for a driver: what it is opened on, and what its answers mean.
use crate::model::{message_of, rows_of, view_opt};
use crate::render::{affected_by, extract_rows_affected, render_table, table_texts};
use crate::sibling::{core_duckerror_message, ExecReply};
use crate::ident::load_sql;
use vstd::prelude::*;

verus! {

/// The statements that a new core runs first.
pub const DRIVER_BOOTSTRAP: &'static str = "LOAD cron; LOAD cron_scheduler;";

/// The database to open: an empty path is one in memory.
pub fn driver_path(db_path: Option<&str>) -> (r: Option<String>)
    ensures
        view_opt(r) == match db_path {
            Some(p) => if p@.len() == 0 {
                None
            } else {
                Some(p@)
            },
            None => None,
        },
{
    match db_path {
        Some(p) => if p.is_empty() {
            None
        } else {
            Some(p.to_owned())
        },
        None => None,
    }
}

/// Why the core did not open its database.
pub fn driver_open_error(trapped: bool, message: &str) -> (r: String)
    ensures
        r@ == (if trapped {
            "driver-core: call_open trapped: "@
        } else {
            "driver-core: open failed: "@
        }) + message@,
{
    let mut m = if trapped {
        "driver-core: call_open trapped: ".to_owned()
    } else {
        "driver-core: open failed: ".to_owned()
    };
    m.append(message);
    m
}

/// What the core's answer to the first statements means.
pub fn driver_bootstrap(reply: ExecReply) -> (r: Result<(), String>)
    ensures
        match reply {
            ExecReply::Rows(_) => r is Ok,
            ExecReply::Failed(e) => r matches Err(m) && m@ == "driver-core: bootstrap LOAD failed: "@
                + message_of(e@),
            ExecReply::Trapped(t) => r matches Err(m) && m@
                == "driver-core: bootstrap LOAD trapped: "@ + t@,
        },
{
    match reply {
        ExecReply::Rows(_) => Ok(()),
        ExecReply::Failed(e) => {
            let mut m = "driver-core: bootstrap LOAD failed: ".to_owned();
            m.append(core_duckerror_message(e).as_str());
            Err(m)
        },
        ExecReply::Trapped(t) => {
            let mut m = "driver-core: bootstrap LOAD trapped: ".to_owned();
            m.append(t.as_str());
            Err(m)
        },
    }
}

/// The number of rows that a statement has changed: none for one that does not say.
pub fn driver_core_exec(reply: ExecReply) -> (r: Result<u64, String>)
    ensures
        match reply {
            ExecReply::Rows(q) => r == Ok::<u64, String>(
                match affected_by(q@.columns, q@.rows) {
                    Some(n) => n,
                    None => 0,
                },
            ),
            ExecReply::Failed(e) => r matches Err(m) && m@ == message_of(e@),
            ExecReply::Trapped(t) => r matches Err(m) && m@ == "driver-core: trap: "@ + t@,
        },
{
    match reply {
        ExecReply::Rows(q) => match extract_rows_affected(&q) {
            Some(n) => Ok(n),
            None => Ok(0),
        },
        ExecReply::Failed(e) => Err(core_duckerror_message(e)),
        ExecReply::Trapped(t) => {
            let mut m = "driver-core: trap: ".to_owned();
            m.append(t.as_str());
            Err(m)
        },
    }
}

/// The rows of a query, as texts.
pub fn driver_core_query(reply: ExecReply) -> (r: Result<Vec<Vec<String>>, String>)
    ensures
        match reply {
            ExecReply::Rows(q) => r matches Ok(rows) && rows_of(rows@) == table_texts(q@.rows),
            ExecReply::Failed(e) => r matches Err(m) && m@ == message_of(e@),
            ExecReply::Trapped(t) => r matches Err(m) && m@ == "driver-core: trap: "@ + t@,
        },
{
    match reply {
        ExecReply::Rows(q) => Ok(render_table(&q.rows)),
        ExecReply::Failed(e) => Err(core_duckerror_message(e)),
        ExecReply::Trapped(t) => {
            let mut m = "driver-core: trap: ".to_owned();
            m.append(t.as_str());
            Err(m)
        },
    }
}

// ---------------------------------------------------------------------------
// Laws
// ---------------------------------------------------------------------------

/// A new core loads the scheduler and what it needs.
pub proof fn law_driver_bootstrap()
    ensures
        DRIVER_BOOTSTRAP@ == load_sql("cron"@) + " "@ + load_sql("cron_scheduler"@),
{
    reveal_strlit("LOAD cron; LOAD cron_scheduler;");
    reveal_strlit("LOAD ");
    reveal_strlit("cron");
    reveal_strlit("cron_scheduler");
    reveal_strlit(";");
    reveal_strlit(" ");
    assert("LOAD cron; LOAD cron_scheduler;"@ =~= load_sql("cron"@) + " "@ + load_sql("cron_scheduler"@));
}

} // verus!
