use rustc_hash::{FxBuildHasher, FxHashMap};
use vstd::prelude::*;

verus! {

/// What two draws must agree on to be drawn alike, as plain words.
pub type GroupKey = (u64, u32, u32, u64, u32, u32, u32);

/// `rustc_hash::FxBuildHasher`, opaque.
#[verifier::external_type_specification]
#[verifier::external_body]
pub struct ExFxBuildHasher(FxBuildHasher);

/// `HashMap::get` on a map that hashes with `FxBuildHasher`: the value kept under `key`.
#[verifier::external_body]
fn fx_get(m: &FxHashMap<GroupKey, usize>, key: &GroupKey) -> (value: Option<usize>)
    ensures
        value == m@.get(*key),
{
    m.get(key).copied()
}

/// `HashMap::insert` on a map that hashes with `FxBuildHasher`: `key` maps to `value` and
/// every other key as before.
#[verifier::external_body]
fn fx_insert(m: &mut FxHashMap<GroupKey, usize>, key: GroupKey, value: usize)
    ensures
        final(m)@ == old(m)@.insert(key, value),
{
    m.insert(key, value);
}

/// Positions by key.
pub struct KeyIndex {
    map: FxHashMap<GroupKey, usize>,
}

impl View for KeyIndex {
    type V = Map<GroupKey, usize>;

    closed spec fn view(&self) -> Map<GroupKey, usize> {
        self.map@
    }
}

impl KeyIndex {
    /// No keys.
    pub fn new() -> (k: KeyIndex)
        ensures
            k@ == Map::<GroupKey, usize>::empty(),
    {
        KeyIndex { map: FxHashMap::default() }
    }

    /// The position of `key`.
    pub fn get(&self, key: &GroupKey) -> (value: Option<usize>)
        ensures
            value == self@.get(*key),
    {
        fx_get(&self.map, key)
    }

    /// Gives `key` a position.
    pub fn insert(&mut self, key: GroupKey, value: usize)
        ensures
            final(self)@ == old(self)@.insert(key, value),
    {
        fx_insert(&mut self.map, key, value);
    }

    /// Forgets all keys.
    pub fn clear(&mut self)
        ensures
            final(self)@ == Map::<GroupKey, usize>::empty(),
    {
        self.map.clear();
    }
}

} // verus!
