use crate::buckets::{
    bucketed, buckets_come_in_order, buckets_hold_the_items, first_place, first_seen,
    first_seen_lists_each_key_once, flat, members_come_from_items,
};
use crate::index::GroupKey;
use crate::ffi::WgrShadowCaster;
use crate::gfx3d::shadows::{
    cascade_draws, caster_key, casts_alone, casts_into, gathered, pack, packed_casters,
    ShadowBucket,
};
use crate::slots::Record;
use vstd::prelude::*;

verus! {

/// How many slots the draws cover.
pub open spec fn slots_cast(draws: Seq<ShadowBucket>) -> nat
    decreases draws.len(),
{
    if draws.len() == 0 {
        0
    } else {
        slots_cast(draws.drop_last()) + draws.last().count as nat
    }
}

/// The draws cover the slots from `start` to the end of `packed` one after the other, each at
/// least one, and each starting with the caster that stands for it.
#[verifier::opaque]
pub open spec fn casts_tile(draws: Seq<ShadowBucket>, packed: Seq<u32>, start: int) -> bool {
    &&& start + slots_cast(draws) == packed.len()
    &&& forall|i: int|
        0 <= i < draws.len() ==> {
            let d = #[trigger] draws[i];
            &&& d.base == start + slots_cast(draws.take(i))
            &&& d.count > 0
            &&& d.base + d.count <= packed.len()
            &&& packed[d.base as int] == d.repr
        }
}

/// Every slot of a draw holds a caster of cascade `c` that agrees with the one that stands for
/// it on mesh, section, cutout, texture and sampler; casters with bones are alone.
#[verifier::opaque]
pub open spec fn casts_agree(
    draws: Seq<ShadowBucket>,
    packed: Seq<u32>,
    casters: Seq<WgrShadowCaster>,
    c: u32,
    meshes: Map<u64, Record>,
) -> bool {
    forall|i: int, s: int|
        #![trigger draws[i], packed[s]]
        0 <= i < draws.len() && draws[i].base <= s < draws[i].base + draws[i].count && s
            < packed.len() ==> {
            &&& draws[i].repr < casters.len()
            &&& packed[s] < casters.len()
            &&& casts_into(&casters[packed[s] as int], c, meshes)
            &&& caster_key(&casters[packed[s] as int]) == caster_key(
                &casters[draws[i].repr as int],
            )
            &&& draws[i].count > 1 ==> !casts_alone(&casters[packed[s] as int], meshes)
        }
}

/// The casters of cascade `c` among the first `n`, in order.
pub open spec fn casters_of(
    casters: Seq<WgrShadowCaster>,
    n: nat,
    c: u32,
    meshes: Map<u64, Record>,
) -> Seq<u32>
    decreases n,
{
    if n == 0 {
        Seq::empty()
    } else {
        let before = casters_of(casters, (n - 1) as nat, c, meshes);
        if casts_into(&casters[n - 1], c, meshes) {
            before.push((n - 1) as u32)
        } else {
            before
        }
    }
}

spec fn run_casts(
    run: Seq<(GroupKey, u32)>,
    casters: Seq<WgrShadowCaster>,
    c: u32,
    meshes: Map<u64, Record>,
) -> bool {
    forall|k: int|
        0 <= k < run.len() ==> {
            let (key, i) = #[trigger] run[k];
            &&& i < casters.len()
            &&& casts_into(&casters[i as int], c, meshes)
            &&& !casts_alone(&casters[i as int], meshes)
            &&& key == caster_key(&casters[i as int])
        }
}

spec fn group_casts(
    group: Seq<u32>,
    casters: Seq<WgrShadowCaster>,
    c: u32,
    meshes: Map<u64, Record>,
) -> bool {
    &&& group.len() > 0
    &&& forall|k: int|
        0 <= k < group.len() ==> {
            let i = #[trigger] group[k];
            &&& i < casters.len()
            &&& casts_into(&casters[i as int], c, meshes)
            &&& !casts_alone(&casters[i as int], meshes)
            &&& caster_key(&casters[i as int]) == caster_key(&casters[group[0] as int])
        }
}

proof fn groups_of_a_run_cast(
    run: Seq<(GroupKey, u32)>,
    casters: Seq<WgrShadowCaster>,
    c: u32,
    meshes: Map<u64, Record>,
)
    requires
        run_casts(run, casters, c, meshes),
    ensures
        forall|g: int|
            0 <= g < bucketed(run).len() ==> group_casts(
                #[trigger] bucketed(run)[g],
                casters,
                c,
                meshes,
            ),
{
    buckets_hold_the_items(run);
    assert forall|g: int| 0 <= g < bucketed(run).len() implies group_casts(
        #[trigger] bucketed(run)[g],
        casters,
        c,
        meshes,
    ) by {
        let key = first_seen(run)[g];
        let group = bucketed(run)[g];
        members_come_from_items(run, key);
        let first = choose|i: int| 0 <= i < run.len() && run[i] == (key, group[0]);
        assert(run[first].0 == key);
        assert forall|k: int| 0 <= k < group.len() implies {
            let i = #[trigger] group[k];
            &&& i < casters.len()
            &&& casts_into(&casters[i as int], c, meshes)
            &&& !casts_alone(&casters[i as int], meshes)
            &&& caster_key(&casters[i as int]) == caster_key(&casters[group[0] as int])
        } by {
            let i = choose|i: int| 0 <= i < run.len() && run[i] == (key, group[k]);
            assert(run[i].1 == group[k]);
        }
    }
}

proof fn one_more_cast(
    packed: Seq<u32>,
    draws: Seq<ShadowBucket>,
    group: Seq<u32>,
    casters: Seq<WgrShadowCaster>,
    c: u32,
    meshes: Map<u64, Record>,
    start: int,
)
    requires
        start >= 0,
        casts_tile(draws, packed, start),
        casts_agree(draws, packed, casters, c, meshes),
        group.len() > 0,
        group.len() > 1 ==> group_casts(group, casters, c, meshes),
        group[0] < casters.len(),
        casts_into(&casters[group[0] as int], c, meshes),
        packed.len() + group.len() <= u32::MAX,
    ensures
        ({
            let draw = ShadowBucket {
                repr: group[0],
                base: packed.len() as u32,
                count: group.len() as u32,
            };
            casts_tile(draws.push(draw), packed + group, start) && casts_agree(
                draws.push(draw),
                packed + group,
                casters,
                c,
                meshes,
            )
        }),
{
    reveal(casts_tile);
    reveal(casts_agree);
    let draw = ShadowBucket {
        repr: group[0],
        base: packed.len() as u32,
        count: group.len() as u32,
    };
    let (packed2, draws2) = (packed + group, draws.push(draw));
    assert(draws2.drop_last() =~= draws);
    assert forall|i: int| 0 <= i < draws2.len() implies {
        let d = #[trigger] draws2[i];
        &&& d.base == start + slots_cast(draws2.take(i))
        &&& d.count > 0
        &&& d.base + d.count <= packed2.len()
        &&& packed2[d.base as int] == d.repr
    } by {
        assert(draws2.take(i) =~= draws.take(i));
        if i < draws.len() {
            assert(draws2[i] == draws[i]);
        } else {
            assert(draws.take(i) =~= draws);
        }
    }
    assert forall|i: int, s: int|
        #![trigger draws2[i], packed2[s]]
        0 <= i < draws2.len() && draws2[i].base <= s < draws2[i].base + draws2[i].count && s
            < packed2.len() implies {
        &&& draws2[i].repr < casters.len()
        &&& packed2[s] < casters.len()
        &&& casts_into(&casters[packed2[s] as int], c, meshes)
        &&& caster_key(&casters[packed2[s] as int]) == caster_key(&casters[draws2[i].repr as int])
        &&& draws2[i].count > 1 ==> !casts_alone(&casters[packed2[s] as int], meshes)
    } by {
        if i < draws.len() {
            assert(draws2[i] == draws[i]);
            if 0 <= s < packed.len() {
                assert(packed2[s] == packed[s]);
            }
        } else if packed.len() <= s < packed2.len() {
            assert(packed2[s] == group[s - packed.len()]);
        }
    }
}

proof fn packing_casts(
    packed: Seq<u32>,
    draws: Seq<ShadowBucket>,
    groups: Seq<Seq<u32>>,
    casters: Seq<WgrShadowCaster>,
    c: u32,
    meshes: Map<u64, Record>,
    start: int,
)
    requires
        start >= 0,
        casts_tile(draws, packed, start),
        casts_agree(draws, packed, casters, c, meshes),
        forall|g: int|
            0 <= g < groups.len() ==> group_casts(#[trigger] groups[g], casters, c, meshes),
        packed.len() + flat(groups).len() <= u32::MAX,
    ensures
        casts_tile(pack(packed, draws, groups).1, pack(packed, draws, groups).0, start),
        casts_agree(
            pack(packed, draws, groups).1,
            pack(packed, draws, groups).0,
            casters,
            c,
            meshes,
        ),
        pack(packed, draws, groups).0 == packed + flat(groups),
    decreases groups.len(),
{
    if groups.len() > 0 {
        let before = groups.drop_last();
        assert forall|g: int| 0 <= g < before.len() implies group_casts(
            #[trigger] before[g],
            casters,
            c,
            meshes,
        ) by {
            assert(before[g] == groups[g]);
        }
        packing_casts(packed, draws, before, casters, c, meshes, start);
        let (p, d) = pack(packed, draws, before);
        let group = groups[groups.len() - 1];
        assert(group_casts(group, casters, c, meshes));
        assert(group[0] < casters.len());
        one_more_cast(p, d, group, casters, c, meshes, start);
        assert(pack(packed, draws, groups).0 =~= packed + flat(groups));
    } else {
        assert(packed + flat(groups) =~= packed);
    }
}

spec fn run_indices(run: Seq<(GroupKey, u32)>) -> Seq<u32> {
    run.map_values(|item: (GroupKey, u32)| item.1)
}

proof fn gathering_casts(
    casters: Seq<WgrShadowCaster>,
    n: nat,
    c: u32,
    meshes: Map<u64, Record>,
    packed: Seq<u32>,
)
    requires
        n <= casters.len(),
        packed.len() + casters.len() <= u32::MAX,
    ensures
        ({
            let st = gathered(casters, n, c, meshes, packed);
            &&& casts_tile(st.draws, st.packed, packed.len() as int)
            &&& casts_agree(st.draws, st.packed, casters, c, meshes)
            &&& run_casts(st.run, casters, c, meshes)
            &&& st.packed.len() + st.run.len() <= packed.len() + n
            &&& packed.is_prefix_of(st.packed)
            &&& st.packed.skip(packed.len() as int).to_multiset().add(
                run_indices(st.run).to_multiset(),
            ) =~= casters_of(casters, n, c, meshes).to_multiset()
        }),
    decreases n,
{
    broadcast use vstd::seq_lib::group_to_multiset_ensures;

    let st = gathered(casters, n, c, meshes, packed);
    if n == 0 {
        reveal(casts_tile);
        reveal(casts_agree);
        assert(st.packed.skip(packed.len() as int) =~= Seq::empty());
        assert(run_indices(st.run) =~= Seq::empty());
    } else {
        gathering_casts(casters, (n - 1) as nat, c, meshes, packed);
        let before = gathered(casters, (n - 1) as nat, c, meshes, packed);
        let i = (n - 1) as u32;
        if casts_into(&casters[n - 1], c, meshes) {
            if casts_alone(&casters[n - 1], meshes) {
                one_more_cast(
                    before.packed,
                    before.draws,
                    seq![i],
                    casters,
                    c,
                    meshes,
                    packed.len() as int,
                );
                assert(before.packed + seq![i] =~= before.packed.push(i));
                assert(st.packed.skip(packed.len() as int) =~= before.packed.skip(
                    packed.len() as int,
                ).push(i));
            } else {
                assert(run_indices(st.run) =~= run_indices(before.run).push(i));
            }
        }
    }
}

/// A cascade's slots come behind those of the cascades before it. Its draws cover them exactly,
/// every slot agrees with the draw it belongs to, and together they hold the cascade's casters,
/// each once.
pub proof fn a_cascade_draws_its_casters(
    casters: Seq<WgrShadowCaster>,
    c: nat,
    meshes: Map<u64, Record>,
)
    requires
        c < 4,
        (c + 1) * casters.len() <= u32::MAX,
    ensures
        ({
            let (before, after) = (
                packed_casters(casters, c, meshes),
                packed_casters(casters, c + 1, meshes),
            );
            let draws = cascade_draws(casters, c, meshes);
            &&& before.is_prefix_of(after)
            &&& casts_tile(draws, after, before.len() as int)
            &&& casts_agree(draws, after, casters, c as u32, meshes)
            &&& after.skip(before.len() as int).to_multiset() =~= casters_of(
                casters,
                casters.len(),
                c as u32,
                meshes,
            ).to_multiset()
            &&& after.len() <= (c + 1) * casters.len()
        }),
    decreases c,
{
    let before = packed_casters(casters, c, meshes);
    assert(c * casters.len() + casters.len() == (c + 1) * casters.len()) by (nonlinear_arith);
    if c > 0 {
        a_cascade_draws_its_casters(casters, (c - 1) as nat, meshes);
    }
    assert(before.len() <= c * casters.len());
    let cc = c as u32;
    gathering_casts(casters, casters.len(), cc, meshes, before);
    let st = gathered(casters, casters.len(), cc, meshes, before);
    groups_of_a_run_cast(st.run, casters, cc, meshes);
    buckets_hold_the_items(st.run);
    packing_casts(
        st.packed,
        st.draws,
        bucketed(st.run),
        casters,
        cc,
        meshes,
        before.len() as int,
    );
    let after = packed_casters(casters, c + 1, meshes);
    assert(after == st.packed + flat(bucketed(st.run)));
    assert(after.skip(before.len() as int) =~= st.packed.skip(before.len() as int) + flat(
        bucketed(st.run),
    ));
    vstd::seq_lib::lemma_multiset_commutative(
        st.packed.skip(before.len() as int),
        flat(bucketed(st.run)),
    );
}

/// Every slot holds a caster that there is, and every draw is made of one.
pub proof fn slots_hold_casters(
    casters: Seq<WgrShadowCaster>,
    count: nat,
    meshes: Map<u64, Record>,
)
    requires
        count <= 4,
        count * casters.len() <= u32::MAX,
    ensures
        packed_casters(casters, count, meshes).len() <= count * casters.len(),
        forall|s: int|
            0 <= s < packed_casters(casters, count, meshes).len() ==> #[trigger] packed_casters(
                casters,
                count,
                meshes,
            )[s] < casters.len(),
        forall|c: nat, i: int|
            c < count && 0 <= i < cascade_draws(casters, c, meshes).len() ==> (
            #[trigger] cascade_draws(casters, c, meshes)[i]).repr < casters.len() && cascade_draws(
                casters,
                c,
                meshes,
            )[i].base + cascade_draws(casters, c, meshes)[i].count <= u32::MAX,
    decreases count,
{
    broadcast use vstd::seq_lib::group_to_multiset_ensures;

    if count > 0 {
        let c = (count - 1) as nat;
        assert(c * casters.len() + casters.len() == (c + 1) * casters.len()) by (nonlinear_arith);
        slots_hold_casters(casters, c, meshes);
        a_cascade_draws_its_casters(casters, c, meshes);
        let (before, after) = (
            packed_casters(casters, c, meshes),
            packed_casters(casters, count, meshes),
        );
        let tail = after.skip(before.len() as int);
        let own = casters_of(casters, casters.len(), c as u32, meshes);
        casters_of_in_range(casters, casters.len(), c as u32, meshes);
        assert forall|s: int| 0 <= s < after.len() implies #[trigger] after[s] < casters.len() by {
            if s < before.len() {
                assert(after[s] == before[s]);
            } else {
                let x = tail[s - before.len()];
                assert(after[s] == x);
                assert(tail.contains(x));
                assert(tail.to_multiset().count(x) > 0);
                assert(own.contains(x));
            }
        }
        let draws = cascade_draws(casters, c, meshes);
        assert forall|i: int| 0 <= i < draws.len() implies (#[trigger] draws[i]).repr
            < casters.len() && draws[i].base + draws[i].count <= u32::MAX by {
            reveal(casts_tile);
            assert(after[draws[i].base as int] == draws[i].repr);
        }
    }
}

proof fn casters_of_in_range(
    casters: Seq<WgrShadowCaster>,
    n: nat,
    c: u32,
    meshes: Map<u64, Record>,
)
    requires
        n <= casters.len() <= u32::MAX,
    ensures
        forall|k: int|
            0 <= k < casters_of(casters, n, c, meshes).len() ==> #[trigger] casters_of(
                casters,
                n,
                c,
                meshes,
            )[k] < casters.len(),
    decreases n,
{
    if n > 0 {
        casters_of_in_range(casters, (n - 1) as nat, c, meshes);
        let before = casters_of(casters, (n - 1) as nat, c, meshes);
        let own = casters_of(casters, n, c, meshes);
        assert forall|k: int| 0 <= k < own.len() implies #[trigger] own[k] < casters.len() by {
            if k < before.len() {
                assert(own[k] == before[k]);
            }
        }
    }
}

proof fn packing_lists_groups(packed: Seq<u32>, draws: Seq<ShadowBucket>, groups: Seq<Seq<u32>>)
    ensures
        pack(packed, draws, groups).1.len() == draws.len() + groups.len(),
        draws.is_prefix_of(pack(packed, draws, groups).1),
        forall|i: int|
            draws.len() <= i < draws.len() + groups.len() ==> (#[trigger] pack(
                packed,
                draws,
                groups,
            ).1[i]).repr == groups[i - draws.len()][0],
    decreases groups.len(),
{
    if groups.len() > 0 {
        let before = groups.drop_last();
        packing_lists_groups(packed, draws, before);
        let (d, all) = (pack(packed, draws, before).1, pack(packed, draws, groups).1);
        assert(all.drop_last() =~= d);
        assert forall|i: int| draws.len() <= i < draws.len() + groups.len() implies (
        #[trigger] all[i]).repr == groups[i - draws.len()][0] by {
            if i < d.len() {
                assert(all[i] == d[i]);
                assert(before[i - draws.len()] == groups[i - draws.len()]);
            }
        }
    }
}

/// Draws of single casters with bones, in the casters' order.
spec fn alone_in_order(
    draws: Seq<ShadowBucket>,
    casters: Seq<WgrShadowCaster>,
    n: nat,
    meshes: Map<u64, Record>,
) -> bool {
    &&& forall|i: int|
        0 <= i < draws.len() ==> {
            let d = #[trigger] draws[i];
            d.repr < n && d.count == 1 && casts_alone(&casters[d.repr as int], meshes)
        }
    &&& forall|i: int, j: int|
        #![trigger draws[i], draws[j]]
        0 <= i < j < draws.len() ==> draws[i].repr < draws[j].repr
}

/// Casters in order.
spec fn run_in_order(run: Seq<(GroupKey, u32)>, n: nat) -> bool {
    &&& forall|k: int| 0 <= k < run.len() ==> (#[trigger] run[k]).1 < n
    &&& forall|k: int, l: int|
        #![trigger run[k], run[l]]
        0 <= k < l < run.len() ==> run[k].1 < run[l].1
}

proof fn gathering_keeps_order(
    casters: Seq<WgrShadowCaster>,
    n: nat,
    c: u32,
    meshes: Map<u64, Record>,
    packed: Seq<u32>,
)
    requires
        n <= casters.len() <= u32::MAX,
    ensures
        alone_in_order(gathered(casters, n, c, meshes, packed).draws, casters, n, meshes),
        run_in_order(gathered(casters, n, c, meshes, packed).run, n),
    decreases n,
{
    if n > 0 {
        let m = (n - 1) as nat;
        gathering_keeps_order(casters, m, c, meshes, packed);
        let before = gathered(casters, m, c, meshes, packed);
        let st = gathered(casters, n, c, meshes, packed);
        if casts_into(&casters[n - 1], c, meshes) {
            if casts_alone(&casters[n - 1], meshes) {
                let d = st.draws.last();
                assert(st.draws == before.draws.push(d));
                assert(d.repr == m && d.count == 1);
                assert forall|i: int, j: int|
                    #![trigger st.draws[i], st.draws[j]]
                    0 <= i < j < st.draws.len() implies st.draws[i].repr < st.draws[j].repr by {
                    assert(st.draws[i] == before.draws[i]);
                    if j < before.draws.len() {
                        assert(st.draws[j] == before.draws[j]);
                    }
                }
            } else {
                let item = st.run.last();
                assert(st.run == before.run.push(item));
                assert(item.1 == m);
                assert forall|k: int, l: int|
                    #![trigger st.run[k], st.run[l]]
                    0 <= k < l < st.run.len() implies st.run[k].1 < st.run[l].1 by {
                    assert(st.run[k] == before.run[k]);
                    if l < before.run.len() {
                        assert(st.run[l] == before.run[l]);
                    }
                }
            }
        }
    }
}

/// What the draw at `i` stands for, if it is one of the draws of the casters that are kept.
spec fn stands_for(
    d: ShadowBucket,
    key: GroupKey,
    run: Seq<(GroupKey, u32)>,
    casters: Seq<WgrShadowCaster>,
    meshes: Map<u64, Record>,
) -> bool {
    &&& caster_key(&casters[d.repr as int]) == key
    &&& !casts_alone(&casters[d.repr as int], meshes)
    &&& 0 <= first_place(run, key) < run.len()
    &&& run[first_place(run, key)].1 == d.repr
}

proof fn draws_of_kept_casters(
    packed: Seq<u32>,
    draws: Seq<ShadowBucket>,
    run: Seq<(GroupKey, u32)>,
    casters: Seq<WgrShadowCaster>,
    c: u32,
    meshes: Map<u64, Record>,
)
    requires
        run_casts(run, casters, c, meshes),
    ensures
        ({
            let all = pack(packed, draws, bucketed(run)).1;
            &&& all.len() == draws.len() + first_seen(run).len()
            &&& draws.is_prefix_of(all)
            &&& forall|i: int|
                draws.len() <= i < all.len() ==> stands_for(
                    #[trigger] all[i],
                    first_seen(run)[i - draws.len()],
                    run,
                    casters,
                    meshes,
                )
        }),
{
    let groups = bucketed(run);
    let all = pack(packed, draws, groups).1;
    packing_lists_groups(packed, draws, groups);
    buckets_come_in_order(run);
    assert forall|i: int| draws.len() <= i < all.len() implies stands_for(
        #[trigger] all[i],
        first_seen(run)[i - draws.len()],
        run,
        casters,
        meshes,
    ) by {
        let key = first_seen(run)[i - draws.len()];
        let first = run[first_place(run, key)];
        assert(first == (key, groups[i - draws.len()][0]));
        assert(all[i].repr == groups[i - draws.len()][0]);
    }
}

/// Draws of casters with bones come first; among them, and among the others, draws come in the
/// order of the casters that stand for them.
pub open spec fn casts_in_order(
    draws: Seq<ShadowBucket>,
    casters: Seq<WgrShadowCaster>,
    meshes: Map<u64, Record>,
) -> bool {
    forall|i: int, j: int|
        #![trigger draws[i], draws[j]]
        0 <= i < j < draws.len() ==> {
            let a = casts_alone(&casters[draws[i].repr as int], meshes);
            let b = casts_alone(&casters[draws[j].repr as int], meshes);
            &&& b ==> a
            &&& a == b ==> draws[i].repr < draws[j].repr
        }
}

/// The draw covers the slot, and the caster there has no bones.
pub open spec fn shared_slot(
    d: ShadowBucket,
    slot: int,
    packed: Seq<u32>,
    casters: Seq<WgrShadowCaster>,
    meshes: Map<u64, Record>,
) -> bool {
    d.base <= slot < d.base + d.count && !casts_alone(&casters[packed[slot] as int], meshes)
}

/// Casters without bones share a draw if and only if they agree on all that a draw shares.
pub open spec fn equals_share_draws(
    draws: Seq<ShadowBucket>,
    packed: Seq<u32>,
    casters: Seq<WgrShadowCaster>,
    meshes: Map<u64, Record>,
) -> bool {
    forall|i: int, j: int, s: int, t: int|
        0 <= i < draws.len() && 0 <= j < draws.len() && #[trigger] shared_slot(
            draws[i],
            s,
            packed,
            casters,
            meshes,
        ) && #[trigger] shared_slot(draws[j], t, packed, casters, meshes) ==> (i == j
            <==> caster_key(&casters[packed[s] as int]) == caster_key(&casters[packed[t] as int]))
}

proof fn packed_draws_are_in_order(
    draws: Seq<ShadowBucket>,
    n: int,
    run: Seq<(GroupKey, u32)>,
    casters: Seq<WgrShadowCaster>,
    meshes: Map<u64, Record>,
)
    requires
        0 <= n,
        draws.len() == n + first_seen(run).len(),
        alone_in_order(draws.take(n), casters, casters.len(), meshes),
        run_in_order(run, casters.len()),
        forall|i: int|
            n <= i < draws.len() ==> stands_for(
                #[trigger] draws[i],
                first_seen(run)[i - n],
                run,
                casters,
                meshes,
            ),
    ensures
        casts_in_order(draws, casters, meshes),
{
    let (keys, head) = (first_seen(run), draws.take(n));
    buckets_come_in_order(run);
    assert forall|i: int, j: int| #![trigger draws[i], draws[j]] 0 <= i < j < draws.len() implies {
        let a = casts_alone(&casters[draws[i].repr as int], meshes);
        let b = casts_alone(&casters[draws[j].repr as int], meshes);
        &&& b ==> a
        &&& a == b ==> draws[i].repr < draws[j].repr
    } by {
        if i >= n {
            let (p, q) = (first_place(run, keys[i - n]), first_place(run, keys[j - n]));
            assert(p < q);
            assert(run[p].1 < run[q].1);
        } else {
            assert(head[i] == draws[i]);
            if j < n {
                assert(head[j] == draws[j]);
            }
        }
    }
}

proof fn a_shared_slot_has_its_key(
    draws: Seq<ShadowBucket>,
    n: int,
    run: Seq<(GroupKey, u32)>,
    packed: Seq<u32>,
    start: int,
    casters: Seq<WgrShadowCaster>,
    c: u32,
    meshes: Map<u64, Record>,
    i: int,
    s: int,
)
    requires
        0 <= n,
        0 <= i < draws.len() == n + first_seen(run).len(),
        alone_in_order(draws.take(n), casters, casters.len(), meshes),
        i >= n ==> stands_for(draws[i], first_seen(run)[i - n], run, casters, meshes),
        casts_tile(draws, packed, start),
        casts_agree(draws, packed, casters, c, meshes),
        shared_slot(draws[i], s, packed, casters, meshes),
    ensures
        i >= n,
        caster_key(&casters[packed[s] as int]) == first_seen(run)[i - n],
{
    reveal(casts_tile);
    reveal(casts_agree);
    let d = draws[i];
    assert(d.base + d.count <= packed.len());
    if i < n {
        assert(draws.take(n)[i] == d);
        assert(packed[d.base as int] == d.repr);
    }
}

proof fn packed_draws_are_shared(
    draws: Seq<ShadowBucket>,
    n: int,
    run: Seq<(GroupKey, u32)>,
    packed: Seq<u32>,
    start: int,
    casters: Seq<WgrShadowCaster>,
    c: u32,
    meshes: Map<u64, Record>,
)
    requires
        0 <= n,
        draws.len() == n + first_seen(run).len(),
        alone_in_order(draws.take(n), casters, casters.len(), meshes),
        forall|i: int|
            n <= i < draws.len() ==> stands_for(
                #[trigger] draws[i],
                first_seen(run)[i - n],
                run,
                casters,
                meshes,
            ),
        casts_tile(draws, packed, start),
        casts_agree(draws, packed, casters, c, meshes),
    ensures
        equals_share_draws(draws, packed, casters, meshes),
{
    let keys = first_seen(run);
    assert forall|i: int, j: int, s: int, t: int|
        0 <= i < draws.len() && 0 <= j < draws.len() && #[trigger] shared_slot(
            draws[i],
            s,
            packed,
            casters,
            meshes,
        ) && #[trigger] shared_slot(draws[j], t, packed, casters, meshes) implies (i == j
        <==> caster_key(&casters[packed[s] as int]) == caster_key(&casters[packed[t] as int])) by {
        a_shared_slot_has_its_key(draws, n, run, packed, start, casters, c, meshes, i, s);
        a_shared_slot_has_its_key(draws, n, run, packed, start, casters, c, meshes, j, t);
        first_seen_lists_each_key_once(run);
        assert(i == j <==> keys[i - n] == keys[j - n]);
    }
}

/// Casters of a cascade that have no bones share a draw if and only if they agree on all that a
/// draw shares. Casters with bones are drawn first; among both, draws come in the order of the
/// casters that stand for them.
pub proof fn a_cascade_is_coalesced(
    casters: Seq<WgrShadowCaster>,
    c: nat,
    meshes: Map<u64, Record>,
)
    requires
        c < 4,
        (c + 1) * casters.len() <= u32::MAX,
    ensures
        equals_share_draws(
            cascade_draws(casters, c, meshes),
            packed_casters(casters, c + 1, meshes),
            casters,
            meshes,
        ),
        casts_in_order(cascade_draws(casters, c, meshes), casters, meshes),
{
    let before = packed_casters(casters, c, meshes);
    let after = packed_casters(casters, c + 1, meshes);
    let draws = cascade_draws(casters, c, meshes);
    let cc = c as u32;
    assert(c * casters.len() + casters.len() == (c + 1) * casters.len() && c * casters.len() >= 0)
        by (nonlinear_arith);
    a_cascade_draws_its_casters(casters, c, meshes);
    if c > 0 {
        a_cascade_draws_its_casters(casters, (c - 1) as nat, meshes);
    }
    let st = gathered(casters, casters.len(), cc, meshes, before);
    let n = st.draws.len() as int;
    gathering_casts(casters, casters.len(), cc, meshes, before);
    gathering_keeps_order(casters, casters.len(), cc, meshes, before);
    draws_of_kept_casters(st.packed, st.draws, st.run, casters, cc, meshes);
    assert(draws.take(n) =~= st.draws);
    packed_draws_are_in_order(draws, n, st.run, casters, meshes);
    packed_draws_are_shared(
        draws,
        n,
        st.run,
        after,
        before.len() as int,
        casters,
        cc,
        meshes,
    );
}

} // verus!
