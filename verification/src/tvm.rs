//! Handles to spilled blocks. A block is named by its region, its offset and the
//! generation of the slot that it lies in, so that a handle to a block that was freed
//! is not taken for the block that came after it.
use std::collections::HashMap;
use vstd::prelude::*;

verus! {

broadcast use vstd::std_specs::hash::group_hash_axioms;

/// A kind of region, as the core names it.
#[derive(Clone, Copy, Debug, PartialEq, Eq, Structural)]
pub enum RegionKind {
    HotHeap,
    ObjectArena,
    BlobArena,
    PageStore,
    Scratch,
    DeviceState,
    CodeCache,
}

/// A kind of region, as the region directory names it.
#[derive(Clone, Copy, Debug, PartialEq, Eq, Structural)]
pub enum CoreRegionKind {
    HotHeap,
    ObjectArena,
    BlobArena,
    PageStore,
    Scratch,
    DeviceState,
    CodeCache,
}

/// The kind of the same name.
pub open spec fn core_kind(k: RegionKind) -> CoreRegionKind {
    match k {
        RegionKind::HotHeap => CoreRegionKind::HotHeap,
        RegionKind::ObjectArena => CoreRegionKind::ObjectArena,
        RegionKind::BlobArena => CoreRegionKind::BlobArena,
        RegionKind::PageStore => CoreRegionKind::PageStore,
        RegionKind::Scratch => CoreRegionKind::Scratch,
        RegionKind::DeviceState => CoreRegionKind::DeviceState,
        RegionKind::CodeCache => CoreRegionKind::CodeCache,
    }
}

pub fn tvm_kind_to_core(k: RegionKind) -> (r: CoreRegionKind)
    ensures
        r == core_kind(k),
{
    match k {
        RegionKind::HotHeap => CoreRegionKind::HotHeap,
        RegionKind::ObjectArena => CoreRegionKind::ObjectArena,
        RegionKind::BlobArena => CoreRegionKind::BlobArena,
        RegionKind::PageStore => CoreRegionKind::PageStore,
        RegionKind::Scratch => CoreRegionKind::Scratch,
        RegionKind::DeviceState => CoreRegionKind::DeviceState,
        RegionKind::CodeCache => CoreRegionKind::CodeCache,
    }
}

/// A block as the region directory knows it.
#[derive(Clone, Copy, Debug, PartialEq, Eq, Structural)]
pub struct CoreHandle {
    pub region_id: u16,
    /// The generation of the region.
    pub generation: u16,
    pub offset: u32,
}

/// A block as it is named to the core.
#[derive(Clone, Copy, Debug, PartialEq, Eq, Structural)]
pub struct Handle {
    pub region_id: u16,
    /// The generation of the slot.
    pub generation: u16,
    pub offset: u32,
}

/// Why an operation on a block failed.
#[derive(Debug)]
pub enum TvmError {
    /// The block was freed, or was never there.
    StaleHandle,
    /// The region directory refused.
    BackingStore(String),
}

/// What a slot holds: its generation, and its block while it is in use.
#[derive(Clone, Copy, Debug, PartialEq, Eq, Structural)]
pub struct Slot {
    pub generation: u16,
    pub live: Option<CoreHandle>,
}

/// The slots that have ever been used, by region and offset.
#[derive(Debug)]
pub struct SlotTable {
    slots: HashMap<u64, Slot>,
}

/// The key of a slot.
pub open spec fn slot_key(region_id: u16, offset: u32) -> u64 {
    (region_id * 0x1_0000_0000 + offset) as u64
}

fn key_of(region_id: u16, offset: u32) -> (r: u64)
    ensures
        r == slot_key(region_id, offset),
{
    region_id as u64 * 0x1_0000_0000 + offset as u64
}

impl View for SlotTable {
    type V = Map<u64, Slot>;

    closed spec fn view(&self) -> Map<u64, Slot> {
        self.slots@
    }
}

/// The generation that the next block of a slot has.
pub open spec fn next_generation(slots: Map<u64, Slot>, key: u64) -> u16 {
    if slots.contains_key(key) {
        if slots[key].generation == u16::MAX {
            0
        } else {
            (slots[key].generation + 1) as u16
        }
    } else {
        1
    }
}

/// The block that a handle names, if it is still that block.
pub open spec fn resolves(slots: Map<u64, Slot>, ptr: Handle) -> Option<CoreHandle> {
    let key = slot_key(ptr.region_id, ptr.offset);
    if slots.contains_key(key) && slots[key].generation == ptr.generation {
        slots[key].live
    } else {
        None
    }
}

impl SlotTable {
    pub fn new() -> (r: SlotTable)
        ensures
            r@ == Map::<u64, Slot>::empty(),
    {
        SlotTable { slots: HashMap::new() }
    }

    /// Enters a new block in its slot, under the slot's next generation.
    pub fn tvm_register(&mut self, region_id: u16, block: CoreHandle) -> (r: Handle)
        ensures
            ({
                let key = slot_key(region_id, block.offset);
                let generation = next_generation(old(self)@, key);
                &&& r == (Handle { region_id, generation, offset: block.offset })
                &&& final(self)@ == old(self)@.insert(key, (Slot { generation, live: Some(block) }))
            }),
    {
        let key: u64 = key_of(region_id, block.offset);
        let generation: u16 = match self.slots.get(&key) {
            Some(slot) => slot.generation.wrapping_add(1),
            None => 1,
        };
        self.slots.insert(key, Slot { generation, live: Some(block) });
        Handle { region_id, generation, offset: block.offset }
    }

    /// The block that a handle names. With `free` the slot is given up.
    pub fn tvm_resolve(&mut self, ptr: Handle, free: bool) -> (r: Result<CoreHandle, TvmError>)
        ensures
            match resolves(old(self)@, ptr) {
                None => r matches Err(TvmError::StaleHandle) && final(self)@ == old(self)@,
                Some(block) => {
                    &&& r == Ok::<CoreHandle, TvmError>(block)
                    &&& final(self)@ == (if free {
                        old(self)@.insert(
                            slot_key(ptr.region_id, ptr.offset),
                            (Slot { generation: ptr.generation, live: None }),
                        )
                    } else {
                        old(self)@
                    })
                },
            },
    {
        let key: u64 = key_of(ptr.region_id, ptr.offset);
        let slot: Slot = match self.slots.get(&key) {
            Some(slot) => *slot,
            None => {
                return Err(TvmError::StaleHandle);
            },
        };
        if slot.generation != ptr.generation {
            return Err(TvmError::StaleHandle);
        }
        match slot.live {
            None => Err(TvmError::StaleHandle),
            Some(block) => {
                if free {
                    self.slots.insert(key, Slot { generation: slot.generation, live: None });
                }
                Ok(block)
            },
        }
    }
}

// ---------------------------------------------------------------------------
// Laws
// ---------------------------------------------------------------------------

/// Different slots have different keys.
pub proof fn law_slot_keys_are_unique(r1: u16, o1: u32, r2: u16, o2: u32)
    requires
        slot_key(r1, o1) == slot_key(r2, o2),
    ensures
        r1 == r2,
        o1 == o2,
{
}

/// A new handle names its block, until it is freed.
pub proof fn law_new_handle_resolves(slots: Map<u64, Slot>, region_id: u16, block: CoreHandle)
    ensures
        ({
            let key = slot_key(region_id, block.offset);
            let generation = next_generation(slots, key);
            let ptr = Handle { region_id, generation, offset: block.offset };
            let now = slots.insert(key, (Slot { generation, live: Some(block) }));
            let freed = now.insert(key, (Slot { generation, live: None }));
            &&& resolves(now, ptr) == Some(block)
            &&& resolves(freed, ptr) is None
        }),
{
}

/// The slots after blocks were entered one after another in one slot.
pub open spec fn reused(slots: Map<u64, Slot>, key: u64, blocks: Seq<CoreHandle>) -> Map<u64, Slot>
    decreases blocks.len(),
{
    if blocks.len() == 0 {
        slots
    } else {
        let before = reused(slots, key, blocks.drop_last());
        before.insert(
            key,
            (Slot { generation: next_generation(before, key), live: Some(blocks.last()) }),
        )
    }
}

proof fn lemma_generation_after(slots: Map<u64, Slot>, key: u64, blocks: Seq<CoreHandle>)
    requires
        slots.contains_key(key),
    ensures
        reused(slots, key, blocks).contains_key(key),
        reused(slots, key, blocks)[key].generation == (slots[key].generation + blocks.len()) % 0x1_0000,
    decreases blocks.len(),
{
    if blocks.len() > 0 {
        lemma_generation_after(slots, key, blocks.drop_last());
    }
}

/// After a slot is used again, a handle to a block that it held before names nothing.
/// Generations repeat only after 65536 uses of the slot.
pub proof fn law_stale_handle_is_rejected(
    slots: Map<u64, Slot>,
    old_ptr: Handle,
    blocks: Seq<CoreHandle>,
)
    requires
        resolves(slots, old_ptr) is Some,
        blocks.len() % 0x1_0000 != 0,
    ensures
        resolves(reused(slots, slot_key(old_ptr.region_id, old_ptr.offset), blocks), old_ptr) is None,
{
    lemma_generation_after(slots, slot_key(old_ptr.region_id, old_ptr.offset), blocks);
}

/// Entering or freeing a block of one slot changes nothing for the handles of
/// another.
pub proof fn law_slots_are_independent(slots: Map<u64, Slot>, key: u64, slot: Slot, ptr: Handle)
    requires
        key != slot_key(ptr.region_id, ptr.offset),
    ensures
        resolves(slots.insert(key, slot), ptr) == resolves(slots, ptr),
{
}

/// A kind of region keeps its name in the core.
pub proof fn law_region_kinds_keep_their_names(k: RegionKind)
    ensures
        match (k, core_kind(k)) {
            (RegionKind::HotHeap, CoreRegionKind::HotHeap) => true,
            (RegionKind::ObjectArena, CoreRegionKind::ObjectArena) => true,
            (RegionKind::BlobArena, CoreRegionKind::BlobArena) => true,
            (RegionKind::PageStore, CoreRegionKind::PageStore) => true,
            (RegionKind::Scratch, CoreRegionKind::Scratch) => true,
            (RegionKind::DeviceState, CoreRegionKind::DeviceState) => true,
            (RegionKind::CodeCache, CoreRegionKind::CodeCache) => true,
            _ => false,
        },
{
}

/// A slot has generation one at first, and each use of it the next, with zero behind the
/// largest.
pub proof fn law_generations_count_up(slots: Map<u64, Slot>, key: u64, slot: Slot)
    ensures
        !slots.contains_key(key) ==> next_generation(slots, key) == 1,
        slot.generation < 0xFFFF ==> next_generation(slots.insert(key, slot), key) == slot.generation
            + 1,
        slot.generation == 0xFFFF ==> next_generation(slots.insert(key, slot), key) == 0,
{
}

/// A handle resolves exactly where its slot holds a block of the handle's own generation.
pub proof fn law_handle_resolves_by_generation(slots: Map<u64, Slot>, ptr: Handle, slot: Slot)
    ensures
        resolves(slots.insert(slot_key(ptr.region_id, ptr.offset), slot), ptr) == (if slot.generation
            == ptr.generation {
            slot.live
        } else {
            None
        }),
        resolves(Map::empty(), ptr) is None,
{
}

} // verus!
