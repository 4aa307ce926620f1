//! A single write in a transaction of its own: begin, write, and then commit or roll
//! back.
use crate::extension_types::Duckerror;
use vstd::prelude::*;

verus! {

/// What the storage backend is being asked for.
#[derive(Debug)]
pub enum TxnState {
    Beginning,
    Working { txn: u32 },
    /// The write changed `count` rows.
    Committing { count: u64 },
    /// The write failed with this error.
    RollingBack { err: Duckerror },
    Finished,
}

/// What the storage backend answered.
#[derive(Debug)]
pub enum TxnEvent {
    Began(Result<u32, Duckerror>),
    Worked(Result<u64, Duckerror>),
    /// The commit or the rollback.
    Ended(Result<(), Duckerror>),
}

/// What to do next.
#[derive(Debug)]
pub enum TxnAction {
    Work { txn: u32 },
    Commit { txn: u32 },
    Rollback { txn: u32 },
    Finish(Result<u64, Duckerror>),
    /// The event does not belong to the state; nothing is to be done.
    Ignore,
}

/// One step of a write in its own transaction.
pub open spec fn txn_next(state: TxnState, event: TxnEvent) -> (TxnState, TxnAction) {
    match (state, event) {
        (TxnState::Beginning, TxnEvent::Began(Ok(txn))) => (
            TxnState::Working { txn },
            TxnAction::Work { txn },
        ),
        (TxnState::Beginning, TxnEvent::Began(Err(e))) => (
            TxnState::Finished,
            TxnAction::Finish(Err(e)),
        ),
        (TxnState::Working { txn }, TxnEvent::Worked(Ok(count))) => (
            TxnState::Committing { count },
            TxnAction::Commit { txn },
        ),
        (TxnState::Working { txn }, TxnEvent::Worked(Err(err))) => (
            TxnState::RollingBack { err },
            TxnAction::Rollback { txn },
        ),
        (TxnState::Committing { count }, TxnEvent::Ended(Ok(_))) => (
            TxnState::Finished,
            TxnAction::Finish(Ok(count)),
        ),
        (TxnState::Committing { .. }, TxnEvent::Ended(Err(e))) => (
            TxnState::Finished,
            TxnAction::Finish(Err(e)),
        ),
        (TxnState::RollingBack { err }, TxnEvent::Ended(_)) => (
            TxnState::Finished,
            TxnAction::Finish(Err(err)),
        ),
        (state, _) => (state, TxnAction::Ignore),
    }
}

pub fn txn_step(state: TxnState, event: TxnEvent) -> (r: (TxnState, TxnAction))
    ensures
        r == txn_next(state, event),
{
    match (state, event) {
        (TxnState::Beginning, TxnEvent::Began(Ok(txn))) => (
            TxnState::Working { txn },
            TxnAction::Work { txn },
        ),
        (TxnState::Beginning, TxnEvent::Began(Err(e))) => (
            TxnState::Finished,
            TxnAction::Finish(Err(e)),
        ),
        (TxnState::Working { txn }, TxnEvent::Worked(Ok(count))) => (
            TxnState::Committing { count },
            TxnAction::Commit { txn },
        ),
        (TxnState::Working { txn }, TxnEvent::Worked(Err(err))) => (
            TxnState::RollingBack { err },
            TxnAction::Rollback { txn },
        ),
        (TxnState::Committing { count }, TxnEvent::Ended(Ok(_))) => (
            TxnState::Finished,
            TxnAction::Finish(Ok(count)),
        ),
        (TxnState::Committing { .. }, TxnEvent::Ended(Err(e))) => (
            TxnState::Finished,
            TxnAction::Finish(Err(e)),
        ),
        (TxnState::RollingBack { err }, TxnEvent::Ended(_)) => (
            TxnState::Finished,
            TxnAction::Finish(Err(err)),
        ),
        (state, _) => (state, TxnAction::Ignore),
    }
}

// ---------------------------------------------------------------------------
// Laws
// ---------------------------------------------------------------------------

/// A write that succeeds is committed, never rolled back, in the transaction that was
/// begun for it; it counts as done only if the commit succeeds too.
pub proof fn law_successful_write_is_committed(txn: u32, count: u64, end: Result<(), Duckerror>)
    ensures
        ({
            let (s1, a1) = txn_next(TxnState::Beginning, TxnEvent::Began(Ok(txn)));
            let (s2, a2) = txn_next(s1, TxnEvent::Worked(Ok(count)));
            let (s3, a3) = txn_next(s2, TxnEvent::Ended(end));
            &&& a1 == (TxnAction::Work { txn })
            &&& a2 == (TxnAction::Commit { txn })
            &&& s3 is Finished
            &&& a3 == TxnAction::Finish(
                match end {
                    Ok(_) => Ok(count),
                    Err(e) => Err(e),
                },
            )
        }),
{
}

/// A write that fails is rolled back, never committed, and its own error is reported
/// whatever becomes of the rollback.
pub proof fn law_failed_write_is_rolled_back(txn: u32, err: Duckerror, end: Result<(), Duckerror>)
    ensures
        ({
            let (s1, a1) = txn_next(TxnState::Beginning, TxnEvent::Began(Ok(txn)));
            let (s2, a2) = txn_next(s1, TxnEvent::Worked(Err(err)));
            let (s3, a3) = txn_next(s2, TxnEvent::Ended(end));
            &&& a2 == (TxnAction::Rollback { txn })
            &&& s3 is Finished
            &&& a3 == TxnAction::Finish(Err(err))
        }),
{
}

/// What has ended stays ended: nothing is written, committed or rolled back any more.
pub proof fn law_finished_transaction_is_inert(event: TxnEvent)
    ensures
        txn_next(TxnState::Finished, event) == (TxnState::Finished, TxnAction::Ignore),
{
}

/// A transaction that could not begin ends with the reason, and an event out of its turn
/// changes nothing.
pub proof fn law_events_have_their_turn(state: TxnState, event: TxnEvent)
    ensures
        match (state, event) {
            (TxnState::Beginning, TxnEvent::Began(Err(e))) => txn_next(state, event) == (
                TxnState::Finished,
                TxnAction::Finish(Err(e)),
            ),
            (TxnState::Beginning, TxnEvent::Began(_)) => !(txn_next(state, event).1 is Ignore),
            (TxnState::Working { .. }, TxnEvent::Worked(_)) => !(txn_next(state, event).1 is Ignore),
            (TxnState::Committing { .. }, TxnEvent::Ended(_)) => !(txn_next(state, event).1 is Ignore),
            (TxnState::RollingBack { .. }, TxnEvent::Ended(_)) => !(txn_next(state, event).1 is Ignore),
            _ => txn_next(state, event) == (state, TxnAction::Ignore),
        },
{
}

} // verus!
