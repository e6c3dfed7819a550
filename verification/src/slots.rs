use slotmap::{DefaultKey, Key, KeyData, SlotMap};
use vstd::prelude::*;

verus! {

/// Three words of plain data kept for one live handle.
pub type Record = (u32, u32, u32);

/// The most records a table holds at once.
pub const MAX_RECORDS: u64 = 0xffff_fffe;

/// A `slotmap::SlotMap` of records, opaque: what it holds is given by `slot_records`.
#[verifier::external_body]
pub struct RecordSlots {
    map: SlotMap<DefaultKey, Record>,
}

/// The live records of a slot map, keyed by the 64-bit form of their keys.
pub uninterp spec fn slot_records(m: RecordSlots) -> Map<u64, Record>;

/// A table without records.
pub open spec fn no_records() -> Map<u64, Record> {
    Map::empty()
}

/// The key that `handle` is read as: a key's version word is odd, and reading a handle sets
/// that bit.
pub open spec fn canonical(handle: u64) -> u64 {
    handle | 0x1_0000_0000
}

/// The record that `handle` names, if it is live.
pub open spec fn lookup(records: Map<u64, Record>, handle: u64) -> Option<Record> {
    if records.dom().contains(canonical(handle)) {
        Some(records[canonical(handle)])
    } else {
        None
    }
}

/// What every handle of a live record satisfies: it is read as itself, and neither it nor its
/// low word is zero.
pub open spec fn valid_handle(handle: u64) -> bool {
    canonical(handle) == handle && handle & 0xffff_ffff != 0
}

/// `SlotMap::with_key`: a map that holds nothing.
#[verifier::external_body]
fn slot_map_new() -> (m: RecordSlots)
    ensures
        slot_records(m) == no_records(),
{
    RecordSlots { map: SlotMap::with_key() }
}

/// `SlotMap::insert`, and the new key's 64-bit form (`KeyData::as_ffi`). The key was not live
/// before, its version word is odd, and its index word is not zero. The map is full, and the
/// call panics, at `MAX_RECORDS` records.
#[verifier::external_body]
fn slot_map_insert(m: &mut RecordSlots, record: Record) -> (handle: u64)
    requires
        slot_records(*old(m)).len() < MAX_RECORDS,
    ensures
        valid_handle(handle),
        !slot_records(*old(m)).dom().contains(handle),
        slot_records(*final(m)) == slot_records(*old(m)).insert(handle, record),
{
    m.map.insert(record).data().as_ffi()
}

/// `SlotMap::get` on the key that `KeyData::from_ffi` reads out of `handle`.
#[verifier::external_body]
fn slot_map_get(m: &RecordSlots, handle: u64) -> (record: Option<Record>)
    ensures
        record == lookup(slot_records(*m), handle),
{
    m.map.get(KeyData::from_ffi(handle).into()).copied()
}

/// `SlotMap::get_mut` on the key that `KeyData::from_ffi` reads out of `handle`, and a write
/// through the reference: a live record is replaced, and nothing else changes.
#[verifier::external_body]
fn slot_map_get_mut(m: &mut RecordSlots, handle: u64) -> (record: Option<&mut Record>)
    ensures
        match record {
            Some(r) => lookup(slot_records(*old(m)), handle) == Some(*r)
                && slot_records(*final(m)) == slot_records(*old(m)).insert(
                canonical(handle),
                *final(r),
            ),
            None => lookup(slot_records(*old(m)), handle) is None
                && slot_records(*final(m)) == slot_records(*old(m)),
        },
{
    m.map.get_mut(KeyData::from_ffi(handle).into())
}

/// `SlotMap::remove` on the key that `KeyData::from_ffi` reads out of `handle`.
#[verifier::external_body]
fn slot_map_remove(m: &mut RecordSlots, handle: u64)
    ensures
        slot_records(*final(m)) == slot_records(*old(m)).remove(canonical(handle)),
{
    m.map.remove(KeyData::from_ffi(handle).into());
}

/// `SlotMap::len`: how many records are live.
#[verifier::external_body]
fn slot_map_len(m: &RecordSlots) -> (n: usize)
    ensures
        n == slot_records(*m).len(),
{
    m.map.len()
}

/// A table of records behind opaque 64-bit handles. Zero is never a live handle.
pub struct HandleTable {
    map: RecordSlots,
}

impl View for HandleTable {
    type V = Map<u64, Record>;

    closed spec fn view(&self) -> Map<u64, Record> {
        slot_records(self.map)
    }
}

impl HandleTable {
    /// Finitely many live handles, all of them valid.
    pub open spec fn wf(&self) -> bool {
        &&& self@.dom().finite()
        &&& forall|h: u64| #[trigger] self@.dom().contains(h) ==> valid_handle(h)
    }

    /// An empty table.
    pub fn new() -> (t: HandleTable)
        ensures
            t.wf(),
            t@ == no_records(),
    {
        HandleTable { map: slot_map_new() }
    }

    /// The number of live handles.
    pub fn len(&self) -> (n: usize)
        ensures
            n == self@.len(),
    {
        slot_map_len(&self.map)
    }

    /// Keeps `record` under a fresh handle.
    pub fn insert(&mut self, record: Record) -> (handle: u64)
        requires
            old(self).wf(),
            old(self)@.len() < MAX_RECORDS,
        ensures
            final(self).wf(),
            handle != 0,
            valid_handle(handle),
            !old(self)@.dom().contains(handle),
            final(self)@ == old(self)@.insert(handle, record),
    {
        let handle: u64 = slot_map_insert(&mut self.map, record);
        assert(handle & 0xffff_ffff != 0 ==> handle != 0) by (bit_vector);
        handle
    }

    /// The record of `handle`, if it is live.
    pub fn get(&self, handle: u64) -> (record: Option<Record>)
        ensures
            record == lookup(self@, handle),
    {
        slot_map_get(&self.map, handle)
    }

    /// Replaces the record of a live `handle`; does nothing otherwise.
    pub fn set(&mut self, handle: u64, record: Record)
        requires
            old(self).wf(),
        ensures
            final(self).wf(),
            lookup(old(self)@, handle) is Some ==> final(self)@ == old(self)@.insert(
                canonical(handle),
                record,
            ),
            lookup(old(self)@, handle) is None ==> final(self)@ == old(self)@,
    {
        match slot_map_get_mut(&mut self.map, handle) {
            Some(slot) => {
                *slot = record;
            },
            None => {},
        }
    }

    /// Frees `handle`; does nothing if it is not live.
    pub fn remove(&mut self, handle: u64)
        requires
            old(self).wf(),
        ensures
            final(self).wf(),
            final(self)@ == old(self)@.remove(canonical(handle)),
    {
        slot_map_remove(&mut self.map, handle);
    }
}

/// The zero handle names nothing.
pub proof fn zero_is_never_live(t: HandleTable)
    requires
        t.wf(),
    ensures
        lookup(t@, 0) is None,
{
    assert(0u64 | 0x1_0000_0000 == 0x1_0000_0000u64) by (bit_vector);
    assert(0x1_0000_0000u64 & 0xffff_ffff == 0) by (bit_vector);
}

/// A live handle is read as itself: what was kept under it is what a lookup finds.
pub proof fn valid_handle_lookup(records: Map<u64, Record>, handle: u64, record: Record)
    requires
        valid_handle(handle),
    ensures
        lookup(records.insert(handle, record), handle) == Some(record),
        lookup(records.remove(handle), handle) is None,
{
}

} // verus!
