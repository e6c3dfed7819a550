use crate::index::{GroupKey, KeyIndex};
use vstd::prelude::*;

verus! {

/// The keys of `items`, each once, in the order they were first seen.
pub open spec fn first_seen(items: Seq<(GroupKey, u32)>) -> Seq<GroupKey>
    decreases items.len(),
{
    if items.len() == 0 {
        seq![]
    } else {
        let before = first_seen(items.drop_last());
        if before.contains(items.last().0) {
            before
        } else {
            before.push(items.last().0)
        }
    }
}

/// The items filed under `key`, in order.
pub open spec fn members_of(items: Seq<(GroupKey, u32)>, key: GroupKey) -> Seq<u32>
    decreases items.len(),
{
    if items.len() == 0 {
        seq![]
    } else {
        let before = members_of(items.drop_last(), key);
        if items.last().0 == key {
            before.push(items.last().1)
        } else {
            before
        }
    }
}

/// The buckets that `items` fall into: one per key, in first-seen order.
pub open spec fn bucketed(items: Seq<(GroupKey, u32)>) -> Seq<Seq<u32>> {
    first_seen(items).map_values(|key: GroupKey| members_of(items, key))
}

/// No key is listed twice, and exactly the keys of `items` are listed.
pub proof fn first_seen_lists_each_key_once(items: Seq<(GroupKey, u32)>)
    ensures
        first_seen(items).no_duplicates(),
        forall|k: GroupKey| #[trigger]
            first_seen(items).contains(k) <==> exists|i: int|
                0 <= i < items.len() && (#[trigger] items[i]).0 == k,
        first_seen(items).len() <= items.len(),
    decreases items.len(),
{
    if items.len() > 0 {
        let shorter = items.drop_last();
        let before = first_seen(shorter);
        first_seen_lists_each_key_once(shorter);
        let listed = first_seen(items);
        assert forall|k: GroupKey| #[trigger] listed.contains(k) implies exists|i: int|
            0 <= i < items.len() && (#[trigger] items[i]).0 == k by {
            if before.contains(k) {
                let i = choose|i: int| 0 <= i < shorter.len() && (#[trigger] shorter[i]).0 == k;
                assert(items[i].0 == k);
            } else {
                assert(items[items.len() - 1].0 == k);
            }
        }
        assert forall|k: GroupKey|
            (exists|i: int| 0 <= i < items.len() && (#[trigger] items[i]).0 == k) implies
            #[trigger] listed.contains(k) by {
            let i = choose|i: int| 0 <= i < items.len() && (#[trigger] items[i]).0 == k;
            if i < shorter.len() {
                assert(shorter[i].0 == k);
                assert(before.contains(k));
                let j = choose|j: int| 0 <= j < before.len() && before[j] == k;
                assert(listed[j] == k);
            } else if before.contains(k) {
                assert(listed == before);
            } else {
                assert(listed[before.len() as int] == k);
            }
        }
    }
}

/// Where the first item with `key` is; behind the last if there is none.
pub open spec fn first_place(items: Seq<(GroupKey, u32)>, key: GroupKey) -> int
    decreases items.len(),
{
    if items.len() == 0 {
        0
    } else {
        let place = first_place(items.drop_last(), key);
        if place < items.len() - 1 || items.last().0 == key {
            place
        } else {
            items.len() as int
        }
    }
}

/// No item before the first place of a key has that key.
pub proof fn first_place_is_first(items: Seq<(GroupKey, u32)>, key: GroupKey)
    ensures
        0 <= first_place(items, key) <= items.len(),
        first_place(items, key) < items.len() ==> items[first_place(items, key)].0 == key,
        forall|q: int|
            0 <= q < first_place(items, key) && q < items.len() ==> (#[trigger] items[q]).0 != key,
    decreases items.len(),
{
    if items.len() > 0 {
        let before = items.drop_last();
        first_place_is_first(before, key);
        assert forall|q: int|
            0 <= q < first_place(items, key) && q < items.len() implies (#[trigger] items[q]).0
            != key by {
            if q < before.len() {
                assert(before[q] == items[q]);
            }
        }
    }
}

/// Buckets come in the order in which their keys first appear, and each begins with the item that
/// was the first to have its key.
pub proof fn buckets_come_in_order(items: Seq<(GroupKey, u32)>)
    ensures
        forall|g: int|
            0 <= g < first_seen(items).len() ==> {
                let key = #[trigger] first_seen(items)[g];
                let place = first_place(items, key);
                &&& 0 <= place < items.len()
                &&& bucketed(items)[g].len() > 0
                &&& items[place] == (key, bucketed(items)[g][0])
            },
        forall|g: int, h: int|
            0 <= g < h < first_seen(items).len() ==> first_place(
                items,
                #[trigger] first_seen(items)[g],
            ) < first_place(items, #[trigger] first_seen(items)[h]),
    decreases items.len(),
{
    if items.len() > 0 {
        let before = items.drop_last();
        let (key, x) = items.last();
        let (old_keys, keys) = (first_seen(before), first_seen(items));
        let (old_groups, groups) = (bucketed(before), bucketed(items));
        buckets_come_in_order(before);
        first_seen_lists_each_key_once(before);
        assert forall|g: int| 0 <= g < keys.len() implies {
            let k = #[trigger] keys[g];
            let place = first_place(items, k);
            &&& 0 <= place < items.len()
            &&& groups[g].len() > 0
            &&& items[place] == (k, groups[g][0])
            &&& g < old_keys.len() ==> place == first_place(before, k)
            &&& g == old_keys.len() ==> place == before.len()
        } by {
            let k = keys[g];
            if g < old_keys.len() {
                assert(old_keys[g] == k);
                let place = first_place(before, k);
                assert(before[place] == items[place]);
                assert(old_groups[g] == members_of(before, k));
                assert(groups[g] == members_of(items, k));
                assert(groups[g][0] == old_groups[g][0]);
            } else {
                assert(k == key && !old_keys.contains(key));
                first_place_is_first(before, key);
                if first_place(before, key) < before.len() {
                    assert(old_keys.contains(key));
                }
                no_members(before, key);
                assert(groups[g] == members_of(items, key));
            }
        }
        assert forall|g: int, h: int| 0 <= g < h < keys.len() implies first_place(
            items,
            #[trigger] keys[g],
        ) < first_place(items, #[trigger] keys[h]) by {
            assert(old_keys[g] == keys[g]);
            if h < old_keys.len() {
                assert(old_keys[h] == keys[h]);
            }
        }
    }
}

/// Items under construction, coalesced by key as they arrive.
pub struct Buckets {
    members: Vec<Vec<u32>>,
    index: KeyIndex,
    items: Ghost<Seq<(GroupKey, u32)>>,
}

impl View for Buckets {
    type V = Seq<(GroupKey, u32)>;

    closed spec fn view(&self) -> Seq<(GroupKey, u32)> {
        self.items@
    }
}

impl Buckets {
    /// The stored buckets are those of the items added so far.
    pub closed spec fn wf(&self) -> bool {
        let keys = first_seen(self@);
        &&& self.members@.len() == keys.len()
        &&& forall|i: int|
            0 <= i < keys.len() ==> #[trigger] self.members@[i]@ == members_of(self@, keys[i])
        &&& forall|k: GroupKey| #[trigger]
            self.index@.dom().contains(k) ==> self.index@[k] < keys.len()
                && keys[self.index@[k] as int] == k
        &&& forall|i: int| 0 <= i < keys.len() ==> self.index@.dom().contains(#[trigger] keys[i])
    }

    /// No items.
    pub fn new() -> (b: Buckets)
        ensures
            b.wf(),
            b@.len() == 0,
    {
        Buckets { members: Vec::new(), index: KeyIndex::new(), items: Ghost(Seq::empty()) }
    }

    /// Files `item` under `key`.
    pub fn push(&mut self, key: GroupKey, item: u32)
        requires
            old(self).wf(),
        ensures
            final(self).wf(),
            final(self)@ == old(self)@.push((key, item)),
    {
        let ghost old_items = self@;
        let ghost new_items = self@.push((key, item));
        let ghost old_keys = first_seen(old_items);
        let ghost old_members = self.members@;
        proof {
            first_seen_lists_each_key_once(old_items);
            first_seen_lists_each_key_once(new_items);
            assert(new_items.drop_last() =~= old_items);
        }
        match self.index.get(&key) {
            Some(i) => {
                assert(old_keys.contains(key)) by {
                    assert(old_keys[i as int] == key);
                }
                self.members[i].push(item);
                self.items = Ghost(new_items);
                assert forall|j: int| 0 <= j < first_seen(new_items).len() implies #[trigger]
                    self.members@[j]@ == members_of(new_items, first_seen(new_items)[j]) by {
                    assert(old_members[j]@ == members_of(old_items, old_keys[j]));
                    if j != i as int {
                        assert(old_keys[j] != old_keys[i as int]);
                    }
                }
            },
            None => {
                assert(!old_keys.contains(key));
                let n: usize = self.members.len();
                let mut bucket: Vec<u32> = Vec::new();
                bucket.push(item);
                self.members.push(bucket);
                self.index.insert(key, n);
                self.items = Ghost(new_items);
                proof {
                    no_members(old_items, key);
                    assert(first_seen(new_items) == old_keys.push(key));
                    assert forall|j: int| 0 <= j < first_seen(new_items).len() implies #[trigger]
                        self.members@[j]@ == members_of(new_items, first_seen(new_items)[j]) by {
                        if j < old_keys.len() {
                            assert(old_members[j]@ == members_of(old_items, old_keys[j]));
                            assert(old_keys.contains(old_keys[j]));
                        } else {
                            assert(self.members@[j]@ =~= seq![item]);
                        }
                    }
                }
            },
        }
    }

    /// Hands the buckets out and starts over.
    pub fn take(&mut self) -> (members: Vec<Vec<u32>>)
        requires
            old(self).wf(),
        ensures
            final(self).wf(),
            final(self)@.len() == 0,
            members@.len() == bucketed(old(self)@).len(),
            forall|i: int|
                0 <= i < members@.len() ==> (#[trigger] members@[i])@ == bucketed(old(self)@)[i],
    {
        let mut members: Vec<Vec<u32>> = Vec::new();
        std::mem::swap(&mut members, &mut self.members);
        self.index.clear();
        self.items = Ghost(Seq::empty());
        members
    }
}

proof fn no_members(items: Seq<(GroupKey, u32)>, key: GroupKey)
    requires
        !first_seen(items).contains(key),
    ensures
        members_of(items, key).len() == 0,
    decreases items.len(),
{
    if items.len() > 0 {
        let before = first_seen(items.drop_last());
        if before.contains(key) {
            let j = choose|j: int| 0 <= j < before.len() && before[j] == key;
            assert(first_seen(items)[j] == key);
        }
        if items.last().0 == key {
            assert(first_seen(items)[first_seen(items).len() - 1] == key);
        }
        no_members(items.drop_last(), key);
    }
}

/// What is filed under a key was added under it.
pub proof fn members_come_from_items(items: Seq<(GroupKey, u32)>, key: GroupKey)
    ensures
        forall|k: int|
            0 <= k < members_of(items, key).len() ==> exists|i: int|
                0 <= i < items.len() && items[i] == (key, #[trigger] members_of(items, key)[k]),
    decreases items.len(),
{
    if items.len() > 0 {
        let before = items.drop_last();
        members_come_from_items(before, key);
        let members = members_of(items, key);
        assert forall|k: int| 0 <= k < members.len() implies exists|i: int|
            0 <= i < items.len() && items[i] == (key, #[trigger] members[k]) by {
            if k < members_of(before, key).len() {
                assert(members[k] == members_of(before, key)[k]);
                let i = choose|i: int|
                    0 <= i < before.len() && before[i] == (key, members_of(before, key)[k]);
                assert(items[i] == (key, members[k]));
            } else {
                assert(items[items.len() - 1] == (key, members[k]));
            }
        }
    }
}

/// All items of `groups`, one group after the other.
pub open spec fn flat(groups: Seq<Seq<u32>>) -> Seq<u32>
    decreases groups.len(),
{
    if groups.len() == 0 {
        Seq::empty()
    } else {
        flat(groups.drop_last()) + groups.last()
    }
}

/// The first groups hold no more than all of them.
pub proof fn flat_grows(groups: Seq<Seq<u32>>, n: int)
    requires
        0 <= n <= groups.len(),
    ensures
        flat(groups.take(n)).len() <= flat(groups).len(),
    decreases groups.len() - n,
{
    if n < groups.len() {
        flat_grows(groups, n + 1);
        assert(groups.take(n + 1).drop_last() =~= groups.take(n));
    } else {
        assert(groups.take(n) =~= groups);
    }
}

/// Coalescing drops and duplicates nothing, and leaves no group empty.
pub proof fn buckets_hold_the_items(items: Seq<(GroupKey, u32)>)
    ensures
        flat(bucketed(items)).to_multiset() =~= items.map_values(
            |item: (GroupKey, u32)| item.1,
        ).to_multiset(),
        flat(bucketed(items)).len() == items.len(),
        forall|g: int| 0 <= g < bucketed(items).len() ==> (#[trigger] bucketed(items)[g]).len() > 0,
    decreases items.len(),
{
    broadcast use vstd::seq_lib::group_to_multiset_ensures;

    let values = items.map_values(|item: (GroupKey, u32)| item.1);
    if items.len() > 0 {
        let before = items.drop_last();
        let (key, x) = items.last();
        buckets_hold_the_items(before);
        first_seen_lists_each_key_once(before);
        let keys = first_seen(before);
        let (old_groups, groups) = (bucketed(before), bucketed(items));
        assert(values =~= before.map_values(|item: (GroupKey, u32)| item.1).push(x));
        if keys.contains(key) {
            let j = choose|j: int| 0 <= j < keys.len() && keys[j] == key;
            assert(groups =~= old_groups.update(j, old_groups[j].push(x)));
            flat_of_a_longer_group(old_groups, j, x);
        } else {
            no_members(before, key);
            assert(members_of(items, key) =~= seq![x]);
            assert(groups =~= old_groups.push(seq![x]));
            assert(groups.drop_last() =~= old_groups);
            assert(flat(groups) =~= flat(old_groups).push(x));
        }
    } else {
        assert(values =~= Seq::empty());
        assert(bucketed(items) =~= Seq::empty());
    }
}

proof fn flat_of_a_longer_group(groups: Seq<Seq<u32>>, j: int, x: u32)
    requires
        0 <= j < groups.len(),
    ensures
        flat(groups.update(j, groups[j].push(x))).to_multiset() =~= flat(
            groups,
        ).to_multiset().insert(x),
        flat(groups.update(j, groups[j].push(x))).len() == flat(groups).len() + 1,
    decreases groups.len(),
{
    broadcast use vstd::seq_lib::group_to_multiset_ensures;

    let longer = groups.update(j, groups[j].push(x));
    let last = groups.len() - 1;
    if j == last {
        assert(longer.drop_last() =~= groups.drop_last());
        assert(flat(longer) =~= flat(groups).push(x));
    } else {
        flat_of_a_longer_group(groups.drop_last(), j, x);
        assert(longer.drop_last() =~= groups.drop_last().update(j, groups[j].push(x)));
        vstd::seq_lib::lemma_multiset_commutative(flat(groups.drop_last()), groups.last());
        vstd::seq_lib::lemma_multiset_commutative(flat(longer.drop_last()), groups.last());
    }
}

/// A bucket keeps the order of its items: what comes later lies behind what came before. An item
/// alone is in the bucket of its key and in no other.
pub proof fn members_keep_their_order(
    before: Seq<(GroupKey, u32)>,
    later: Seq<(GroupKey, u32)>,
    key: GroupKey,
    other: GroupKey,
    item: u32,
)
    ensures
        members_of(before + later, key) == members_of(before, key) + members_of(later, key),
        members_of(seq![(key, item)], key) == seq![item],
        other != key ==> members_of(seq![(key, item)], other).len() == 0,
    decreases later.len(),
{
    let one = seq![(key, item)];
    assert(one.drop_last() =~= Seq::empty());
    assert(members_of(one.drop_last(), key) =~= Seq::empty());
    assert(members_of(one.drop_last(), other) =~= Seq::empty());
    assert(members_of(one, key) =~= seq![item]);
    if later.len() == 0 {
        assert(before + later =~= before);
        assert(members_of(later, key) =~= Seq::empty());
        assert(members_of(before, key) + members_of(later, key) =~= members_of(before, key));
    } else {
        members_keep_their_order(before, later.drop_last(), key, other, item);
        assert((before + later).drop_last() =~= before + later.drop_last());
        assert(members_of(before + later, key) =~= members_of(before, key) + members_of(
            later,
            key,
        ));
    }
}

} // verus!
