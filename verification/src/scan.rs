//! Table functions that the host owns: the callback handles that stand for the
//! tables of attached catalogs, and the scan that answers a call of one.
use crate::extension_types::{Duckerror, Duckvalue};
use std::collections::HashMap;
use vstd::prelude::*;

verus! {

broadcast use vstd::std_specs::hash::group_hash_axioms;

/// Callback handles of the functions that the host answers itself. They lie at the
/// top of the range, far above the handles that are dealt out to extensions.
pub const RESOLVER_EXPLAIN_HANDLE: u32 = 0xFFFF_FFFF;

pub const RESOLVER_SET_HANDLE: u32 = 0xFFFF_FFFE;

pub const DUCKLINK_LOAD_HANDLE: u32 = 0xFFFF_FFFD;

pub const DUCKLINK_PREFIX_TABLE_HANDLE: u32 = 0xFFFF_FFFC;

pub const DUCKLINK_PREFIX_SCALAR_HANDLE: u32 = 0xFFFF_FFFB;

/// The handles that stand for tables of attached catalogs.
pub const AT5_ATTACH_SCAN_HANDLE_MIN: u32 = 0xFFC0_0000;

pub const AT5_ATTACH_SCAN_HANDLE_MAX: u32 = 0xFFFE_FFFF;

/// The handle stands for a table of an attached catalog.
pub open spec fn is_scan_handle(h: u32) -> bool {
    AT5_ATTACH_SCAN_HANDLE_MIN <= h <= AT5_ATTACH_SCAN_HANDLE_MAX
}

/// What a scan handle stands for.
#[derive(Clone, Debug)]
pub struct At5ScanTarget {
    /// The extension that backs the catalog.
    pub extension: String,
    /// The callback handle of its storage backend.
    pub storage_handle: u32,
    /// The handle of the opened catalog.
    pub catalog_handle: u32,
    /// The table to scan.
    pub table: String,
}

/// The scan handles that are in use, and where the search for the next one begins.
#[derive(Debug)]
pub struct ScanRegistry {
    targets: HashMap<u32, At5ScanTarget>,
    next: u32,
}

/// The handle after `h`, going round in the range.
pub open spec fn succ(h: u32) -> u32 {
    if h >= AT5_ATTACH_SCAN_HANDLE_MAX || h < AT5_ATTACH_SCAN_HANDLE_MIN {
        AT5_ATTACH_SCAN_HANDLE_MIN
    } else {
        (h + 1) as u32
    }
}

/// The first handle outside `taken` among `h` and the `steps` handles after it.
pub open spec fn free_from(taken: Set<u32>, h: u32, steps: nat) -> u32
    decreases steps,
{
    if steps == 0 || !taken.contains(h) {
        h
    } else {
        free_from(taken, succ(h), (steps - 1) as nat)
    }
}

/// How many steps lead from `h` to `f`, going round in the range.
pub open spec fn distance_of(h: u32, f: u32) -> int {
    if h <= f {
        f - h
    } else {
        f - h + (AT5_ATTACH_SCAN_HANDLE_MAX - AT5_ATTACH_SCAN_HANDLE_MIN + 1)
    }
}

/// The number of scan handles.
pub open spec fn scan_handles() -> nat {
    (AT5_ATTACH_SCAN_HANDLE_MAX - AT5_ATTACH_SCAN_HANDLE_MIN + 1) as nat
}

const SCAN_HANDLE_COUNT: usize = 0x3F_0000;

proof fn lemma_covers(s: Set<u32>, lo: int, hi: int)
    requires
        s.finite(),
        0 <= lo <= hi <= u32::MAX,
        forall|h: u32| lo <= h < hi ==> s.contains(h),
    ensures
        s.len() >= hi - lo,
    decreases hi - lo,
{
    if lo < hi {
        let x = (hi - 1) as u32;
        assert(s.contains(x));
        lemma_covers(s.remove(x), lo, hi - 1);
    }
}

proof fn lemma_lies_within(s: Set<u32>, lo: int, hi: int)
    requires
        s.finite(),
        0 <= lo <= hi <= u32::MAX,
        forall|h: u32| s.contains(h) ==> lo <= h < hi,
    ensures
        s.len() <= hi - lo,
    decreases hi - lo,
{
    if lo < hi {
        let x = (hi - 1) as u32;
        lemma_lies_within(s.remove(x), lo, hi - 1);
    } else {
        assert(s =~= Set::empty());
    }
}

fn next_handle(h: u32) -> (r: u32)
    ensures
        r == succ(h),
{
    if h >= AT5_ATTACH_SCAN_HANDLE_MAX || h < AT5_ATTACH_SCAN_HANDLE_MIN {
        AT5_ATTACH_SCAN_HANDLE_MIN
    } else {
        h + 1
    }
}

impl View for ScanRegistry {
    type V = Map<u32, At5ScanTarget>;

    closed spec fn view(&self) -> Map<u32, At5ScanTarget> {
        self.targets@
    }
}

impl ScanRegistry {
    /// Every handle in use, and the next one, lie in the range.
    pub closed spec fn wf(&self) -> bool {
        &&& is_scan_handle(self.next)
        &&& forall|h: u32| self.targets@.contains_key(h) ==> is_scan_handle(h)
    }

    /// The handle at which the next search begins.
    pub closed spec fn cursor(&self) -> u32 {
        self.next
    }

    pub fn new() -> (r: ScanRegistry)
        ensures
            r.wf(),
            r@ == Map::<u32, At5ScanTarget>::empty(),
            r.cursor() == AT5_ATTACH_SCAN_HANDLE_MIN,
    {
        ScanRegistry { targets: HashMap::new(), next: AT5_ATTACH_SCAN_HANDLE_MIN }
    }

    /// Some scan handle is not in use.
    pub fn has_free_handle(&self) -> (r: bool)
        requires
            self.wf(),
        ensures
            r == exists|f: u32| is_scan_handle(f) && !self@.contains_key(f),
    {
        let r: bool = self.targets.len() < SCAN_HANDLE_COUNT;
        proof {
            let taken = self.targets@.dom();
            let lo = AT5_ATTACH_SCAN_HANDLE_MIN as int;
            let hi = AT5_ATTACH_SCAN_HANDLE_MAX + 1;
            if !(exists|f: u32| is_scan_handle(f) && !self@.contains_key(f)) {
                assert forall|h: u32| lo <= h < hi implies taken.contains(h) by {
                    assert(is_scan_handle(h));
                    assert(self@.contains_key(h));
                }
                lemma_covers(taken, lo, hi);
            } else {
                let f = choose|f: u32| is_scan_handle(f) && !self@.contains_key(f);
                assert forall|h: u32| taken.insert(f).contains(h) implies lo <= h < hi by {
                    if h != f {
                        assert(self.targets@.contains_key(h));
                        assert(is_scan_handle(h));
                    } else {
                        assert(is_scan_handle(f));
                    }
                }
                lemma_lies_within(taken.insert(f), lo, hi);
            }
        }
        r
    }

    /// Allots a handle for a table: the first one at or after the cursor that is not
    /// in use. The cursor moves behind it.
    pub fn register_at5_scan(
        &mut self,
        extension: String,
        storage_handle: u32,
        catalog_handle: u32,
        table: String,
    ) -> (handle: u32)
        requires
            old(self).wf(),
            exists|f: u32| is_scan_handle(f) && !old(self)@.contains_key(f),
        ensures
            final(self).wf(),
            handle == free_from(old(self)@.dom(), old(self).cursor(), scan_handles()),
            is_scan_handle(handle),
            !old(self)@.contains_key(handle),
            final(self)@ == old(self)@.insert(
                handle,
                At5ScanTarget { extension, storage_handle, catalog_handle, table },
            ),
            final(self).cursor() == succ(handle),
    {
        let ghost taken = self.targets@.dom();
        let ghost f = choose|f: u32| is_scan_handle(f) && !self@.contains_key(f);
        let ghost start = self.next;
        let ghost mut left: nat = scan_handles();
        let mut handle: u32 = self.next;
        let mut next: u32 = next_handle(handle);
        while self.targets.contains_key(&handle)
            invariant
                is_scan_handle(handle),
                is_scan_handle(f),
                !taken.contains(f),
                taken == self.targets@.dom(),
                next == succ(handle),
                distance_of(handle, f) < left,
                free_from(taken, start, scan_handles()) == free_from(taken, handle, left),
            decreases distance_of(handle, f),
        {
            proof {
                left = (left - 1) as nat;
            }
            handle = next;
            next = next_handle(next);
        }
        self.next = next;
        self.targets.insert(handle, At5ScanTarget { extension, storage_handle, catalog_handle, table });
        handle
    }

    /// What a handle stands for.
    pub fn target(&self, handle: u32) -> (r: Option<&At5ScanTarget>)
        ensures
            match r {
                Some(t) => self@.contains_key(handle) && self@[handle] == *t,
                None => !self@.contains_key(handle),
            },
    {
        self.targets.get(&handle)
    }
}

// ---------------------------------------------------------------------------
// The scan
// ---------------------------------------------------------------------------

/// Where a scan stands.
#[derive(Debug)]
pub enum ScanState {
    /// The storage backend was asked to open the scan.
    Opening { storage_handle: u32 },
    /// Batches are being fetched; these rows have come so far.
    Draining { storage_handle: u32, scan: u32, rows: Vec<Vec<Duckvalue>> },
    /// The scan is being closed; these are its rows.
    Closing { rows: Vec<Vec<Duckvalue>> },
    Finished,
}

/// What the storage backend answered.
#[derive(Debug)]
pub enum ScanEvent {
    Opened(Result<u32, Duckerror>),
    Batch(Result<Vec<Vec<Duckvalue>>, Duckerror>),
    /// Closing is best effort: its outcome does not matter.
    Closed,
}

/// What to do next.
#[derive(Debug)]
pub enum ScanAction {
    Next { storage_handle: u32, scan: u32, max_rows: u32 },
    Close { storage_handle: u32, scan: u32 },
    Finish(Result<Vec<Vec<Duckvalue>>, Duckerror>),
    /// The event does not belong to the state; nothing is to be done.
    Ignore,
}

/// One step of a scan. An open scan asks for batches without a row limit until an
/// empty one comes, closes, and finishes with all rows. An error ends it at once,
/// without a close.
pub open spec fn scan_next(state: ScanState, event: ScanEvent, after: ScanState, action: ScanAction) -> bool {
    match (state, event) {
        (ScanState::Opening { storage_handle }, ScanEvent::Opened(Ok(scan))) => {
            &&& action == (ScanAction::Next { storage_handle, scan, max_rows: u32::MAX })
            &&& after matches ScanState::Draining { storage_handle: s2, scan: c2, rows }
            &&& s2 == storage_handle
            &&& c2 == scan
            &&& rows@.len() == 0
        },
        (ScanState::Opening { .. }, ScanEvent::Opened(Err(e))) => {
            &&& action == ScanAction::Finish(Err(e))
            &&& after is Finished
        },
        (ScanState::Draining { storage_handle, scan, rows }, ScanEvent::Batch(Ok(batch))) => if batch@.len()
            == 0 {
            &&& action == (ScanAction::Close { storage_handle, scan })
            &&& after == (ScanState::Closing { rows })
        } else {
            &&& action == (ScanAction::Next { storage_handle, scan, max_rows: u32::MAX })
            &&& after matches ScanState::Draining { storage_handle: s2, scan: c2, rows: r2 }
            &&& s2 == storage_handle
            &&& c2 == scan
            &&& r2@ == rows@ + batch@
        },
        (ScanState::Draining { .. }, ScanEvent::Batch(Err(e))) => {
            &&& action == ScanAction::Finish(Err(e))
            &&& after is Finished
        },
        (ScanState::Closing { rows }, ScanEvent::Closed) => {
            &&& action == ScanAction::Finish(Ok(rows))
            &&& after is Finished
        },
        _ => action is Ignore && after == state,
    }
}

pub fn scan_step(state: ScanState, event: ScanEvent) -> (r: (ScanState, ScanAction))
    ensures
        scan_next(state, event, r.0, r.1),
{
    match (state, event) {
        (ScanState::Opening { storage_handle }, ScanEvent::Opened(Ok(scan))) => (
            ScanState::Draining { storage_handle, scan, rows: Vec::new() },
            ScanAction::Next { storage_handle, scan, max_rows: u32::MAX },
        ),
        (ScanState::Opening { .. }, ScanEvent::Opened(Err(e))) => (
            ScanState::Finished,
            ScanAction::Finish(Err(e)),
        ),
        (ScanState::Draining { storage_handle, scan, rows }, ScanEvent::Batch(Ok(batch))) => {
            if batch.len() == 0 {
                (ScanState::Closing { rows }, ScanAction::Close { storage_handle, scan })
            } else {
                let mut rows = rows;
                let mut batch = batch;
                rows.append(&mut batch);
                (
                    ScanState::Draining { storage_handle, scan, rows },
                    ScanAction::Next { storage_handle, scan, max_rows: u32::MAX },
                )
            }
        },
        (ScanState::Draining { .. }, ScanEvent::Batch(Err(e))) => (
            ScanState::Finished,
            ScanAction::Finish(Err(e)),
        ),
        (ScanState::Closing { rows }, ScanEvent::Closed) => (
            ScanState::Finished,
            ScanAction::Finish(Ok(rows)),
        ),
        (state, _) => (state, ScanAction::Ignore),
    }
}

// ---------------------------------------------------------------------------
// Laws
// ---------------------------------------------------------------------------

/// The handles that the host answers itself are five different ones, and none of
/// them stands for a table of an attached catalog.
pub proof fn law_native_handles_are_distinct(h: u32)
    requires
        is_scan_handle(h),
    ensures
        h != RESOLVER_EXPLAIN_HANDLE,
        h != RESOLVER_SET_HANDLE,
        h != DUCKLINK_LOAD_HANDLE,
        h != DUCKLINK_PREFIX_TABLE_HANDLE,
        h != DUCKLINK_PREFIX_SCALAR_HANDLE,
        RESOLVER_EXPLAIN_HANDLE > RESOLVER_SET_HANDLE > DUCKLINK_LOAD_HANDLE
            > DUCKLINK_PREFIX_TABLE_HANDLE > DUCKLINK_PREFIX_SCALAR_HANDLE,
{
}

/// As long as one scan handle is free, the search that allots one finds a free one
/// in the range.
pub proof fn law_allotted_handle_is_free(taken: Set<u32>, h: u32, f: u32, steps: nat)
    requires
        is_scan_handle(h),
        is_scan_handle(f),
        !taken.contains(f),
        steps >= scan_handles() || distance_of(h, f) < steps,
    ensures
        is_scan_handle(free_from(taken, h, steps)),
        !taken.contains(free_from(taken, h, steps)),
    decreases steps,
{
    assert(distance_of(h, f) < scan_handles());
    if taken.contains(h) {
        law_allotted_handle_is_free(taken, succ(h), f, (steps - 1) as nat);
    }
}

/// The rows of a list of batches, one after another.
pub open spec fn flatten(batches: Seq<Seq<Vec<Duckvalue>>>) -> Seq<Vec<Duckvalue>>
    decreases batches.len(),
{
    if batches.len() == 0 {
        Seq::empty()
    } else {
        flatten(batches.drop_last()) + batches.last()
    }
}

/// The states from `states[0]` on follow each other when the backend answers with
/// the given batches, none of them empty.
pub open spec fn drains(
    states: Seq<ScanState>,
    actions: Seq<ScanAction>,
    batches: Seq<Vec<Vec<Duckvalue>>>,
) -> bool {
    &&& states.len() == batches.len() + 1
    &&& actions.len() == batches.len()
    &&& forall|i: int|
        #![trigger batches[i]]
        0 <= i < batches.len() ==> batches[i]@.len() > 0 && scan_next(
            states[i],
            ScanEvent::Batch(Ok(batches[i])),
            states[i + 1],
            actions[i],
        )
}

/// A scan that drains holds exactly the rows of all batches that came, in order.
pub proof fn law_scan_collects_every_batch(
    states: Seq<ScanState>,
    actions: Seq<ScanAction>,
    batches: Seq<Vec<Vec<Duckvalue>>>,
    storage_handle: u32,
    scan: u32,
)
    requires
        drains(states, actions, batches),
        states[0] matches ScanState::Draining { storage_handle: s, scan: c, rows } && s == storage_handle
            && c == scan && rows@.len() == 0,
    ensures
        states.last() matches ScanState::Draining { storage_handle: s, scan: c, rows } && s
            == storage_handle && c == scan && rows@ == flatten(
            batches.map_values(|b: Vec<Vec<Duckvalue>>| b@),
        ),
    decreases batches.len(),
{
    let views = batches.map_values(|b: Vec<Vec<Duckvalue>>| b@);
    if batches.len() > 0 {
        let n = batches.len() - 1;
        let shorter = states.drop_last();
        let fewer = batches.drop_last();
        assert forall|i: int| #![trigger fewer[i]] 0 <= i < n implies fewer[i]@.len() > 0 && scan_next(
            shorter[i],
            ScanEvent::Batch(Ok(fewer[i])),
            shorter[i + 1],
            actions.drop_last()[i],
        ) by {
            assert(fewer[i] == batches[i]);
        }
        law_scan_collects_every_batch(shorter, actions.drop_last(), fewer, storage_handle, scan);
        assert(views.drop_last() =~= fewer.map_values(|b: Vec<Vec<Duckvalue>>| b@));
        assert(batches[n]@.len() > 0);
        assert(shorter.last() == states[n]);
    } else {
        assert(states.last() == states[0]);
    }
}

/// The numbers of the handles: the host's own stand at the top, and scans have the range
/// from 0xFFC00000 to 0xFFFEFFFF.
pub proof fn law_handle_numbers(h: u32)
    ensures
        RESOLVER_EXPLAIN_HANDLE == 0xFFFF_FFFF,
        RESOLVER_SET_HANDLE == 0xFFFF_FFFF - 1,
        DUCKLINK_LOAD_HANDLE == 0xFFFF_FFFF - 2,
        DUCKLINK_PREFIX_TABLE_HANDLE == 0xFFFF_FFFF - 3,
        DUCKLINK_PREFIX_SCALAR_HANDLE == 0xFFFF_FFFF - 4,
        is_scan_handle(h) <==> 0xFFC0_0000 <= h < 0xFFFF_0000,
{
}

/// Handles are allotted in turn: the one that is found is the first free one from the
/// cursor on, going round at the end of the range.
pub proof fn law_allotted_handle_is_the_first_free(taken: Set<u32>, h: u32, f: u32, steps: nat)
    requires
        is_scan_handle(h),
        is_scan_handle(f),
        !taken.contains(f),
        steps >= 0x3F_0000 || distance_of(h, f) < steps,
    ensures
        !taken.contains(free_from(taken, h, steps)),
        0 <= distance_of(h, free_from(taken, h, steps)) <= distance_of(h, f),
    decreases steps,
{
    assert(distance_of(h, f) < scan_handles());
    law_allotted_handle_is_free(taken, h, f, steps);
    if taken.contains(h) {
        law_allotted_handle_is_the_first_free(taken, succ(h), f, (steps - 1) as nat);
        law_allotted_handle_is_free(taken, succ(h), f, (steps - 1) as nat);
        let r = free_from(taken, succ(h), (steps - 1) as nat);
        assert(r != h);
        assert(distance_of(h, r) == distance_of(succ(h), r) + 1);
        assert(distance_of(h, f) == distance_of(succ(h), f) + 1);
    }
}

/// A scan asks the backend that it was opened with for as many rows as there are, until a
/// batch is empty; it then closes the scan and hands out what it has collected. An error
/// ends it at once.
pub proof fn law_scan_runs_to_its_end(
    state: ScanState,
    event: ScanEvent,
    after: ScanState,
    action: ScanAction,
)
    requires
        scan_next(state, event, after, action),
    ensures
        match (state, event) {
            (ScanState::Opening { storage_handle }, ScanEvent::Opened(Ok(scan))) => action == (
            ScanAction::Next { storage_handle, scan, max_rows: 0xFFFF_FFFF }) && (after matches
                ScanState::Draining { storage_handle: s, scan: c, rows } && s == storage_handle && c
                == scan && rows@.len() == 0),
            (ScanState::Draining { storage_handle, scan, rows }, ScanEvent::Batch(Ok(batch))) => {
                &&& batch@.len() == 0 ==> action == (ScanAction::Close { storage_handle, scan })
                    && after == (ScanState::Closing { rows })
                &&& batch@.len() > 0 ==> action == (ScanAction::Next {
                    storage_handle,
                    scan,
                    max_rows: 0xFFFF_FFFF,
                }) && after is Draining
            },
            (ScanState::Closing { rows }, ScanEvent::Closed) => action == ScanAction::Finish(Ok(rows)),
            (ScanState::Opening { .. }, ScanEvent::Opened(Err(e))) => action == ScanAction::Finish(
                Err(e),
            ),
            (ScanState::Draining { .. }, ScanEvent::Batch(Err(e))) => action == ScanAction::Finish(
                Err(e),
            ),
            _ => action is Ignore && after == state,
        },
{
}

} // verus!
