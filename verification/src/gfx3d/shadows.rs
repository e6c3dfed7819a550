use crate::bits;
use crate::buckets::{bucketed, buckets_hold_the_items, flat, flat_grows, Buckets};
use crate::index::GroupKey;
use crate::ffi::{WgrShadowCaster, NO_PALETTE};
use crate::gfx3d::mesh::{find_mesh, mesh_at, moves_with_bones};
use crate::slots::{HandleTable, Record};
use vstd::prelude::*;

verus! {

/// The most cascades a frame has.
pub const MAX_CASCADES: u32 = 4;

/// One instanced draw of a cascade: caster `repr` stands for the slots `base .. base + count`.
#[derive(Clone, Copy, Debug, PartialEq, Eq, Structural)]
pub struct ShadowBucket {
    pub repr: u32,
    pub base: u32,
    pub count: u32,
}

/// The draws of every cascade, and the caster whose data fills each slot.
pub struct ShadowPlan {
    pub packed: Vec<u32>,
    pub cascades: Vec<Vec<ShadowBucket>>,
}

/// The caster cuts its shadow out by its texture.
pub open spec fn is_cutout(caster: &WgrShadowCaster) -> bool {
    bits::float_lt(0, caster.alpha_ref)
}

/// The caster is drawn into cascade `c`: it asks to be, and its section is not empty and lies
/// inside a live mesh.
pub open spec fn casts_into(caster: &WgrShadowCaster, c: u32, meshes: Map<u64, Record>) -> bool {
    &&& caster.cascade_mask & (1u32 << c) != 0
    &&& caster.index_count != 0
    &&& mesh_at(meshes, caster.mesh) matches Some(m) && caster.index_end() <= m.index_count
}

/// The caster's mesh moves with bones, so it is drawn alone.
pub open spec fn casts_alone(caster: &WgrShadowCaster, meshes: Map<u64, Record>) -> bool {
    moves_with_bones(caster.palette_slot, mesh_at(meshes, caster.mesh)->0)
}

/// Everything that one instanced draw of casters shares. Texture and sampler matter only where
/// they cut the shadow out.
pub open spec fn caster_key(caster: &WgrShadowCaster) -> GroupKey {
    if is_cutout(caster) {
        (
            caster.mesh,
            caster.index_begin,
            caster.index_count,
            caster.texture_id,
            caster.sampler.0,
            1,
            0,
        )
    } else {
        (caster.mesh, caster.index_begin, caster.index_count, 0, 0, 0, 0)
    }
}

/// A cascade under construction: slots and draws so far, and the casters still to be coalesced.
pub ghost struct CascadeState {
    pub packed: Seq<u32>,
    pub draws: Seq<ShadowBucket>,
    pub run: Seq<(GroupKey, u32)>,
}

/// The cascade after drawing each of `groups` over slots of its own.
pub open spec fn pack(packed: Seq<u32>, draws: Seq<ShadowBucket>, groups: Seq<Seq<u32>>) -> (
    Seq<u32>,
    Seq<ShadowBucket>,
)
    decreases groups.len(),
{
    if groups.len() == 0 {
        (packed, draws)
    } else {
        let (p, d) = pack(packed, draws, groups.drop_last());
        let group = groups.last();
        (
            p + group,
            d.push(
                ShadowBucket { repr: group[0], base: p.len() as u32, count: group.len() as u32 },
            ),
        )
    }
}

/// The cascade `c` after looking at the first `n` casters, its slots starting behind `packed`.
pub open spec fn gathered(
    casters: Seq<WgrShadowCaster>,
    n: nat,
    c: u32,
    meshes: Map<u64, Record>,
    packed: Seq<u32>,
) -> CascadeState
    decreases n,
{
    if n == 0 {
        CascadeState { packed, draws: Seq::empty(), run: Seq::empty() }
    } else {
        let st = gathered(casters, (n - 1) as nat, c, meshes, packed);
        let caster = casters[n - 1];
        let i = (n - 1) as u32;
        if !casts_into(&caster, c, meshes) {
            st
        } else if casts_alone(&caster, meshes) {
            CascadeState {
                packed: st.packed.push(i),
                draws: st.draws.push(
                    ShadowBucket { repr: i, base: st.packed.len() as u32, count: 1 },
                ),
                run: st.run,
            }
        } else {
            CascadeState { run: st.run.push((caster_key(&caster), i)), ..st }
        }
    }
}

/// The slots up to and with cascade `c`, and the cascade's draws.
pub open spec fn cascade_plan(
    casters: Seq<WgrShadowCaster>,
    c: u32,
    meshes: Map<u64, Record>,
    packed: Seq<u32>,
) -> (Seq<u32>, Seq<ShadowBucket>) {
    let st = gathered(casters, casters.len(), c, meshes, packed);
    pack(st.packed, st.draws, bucketed(st.run))
}

/// The slots of the first `count` cascades, one cascade after the other.
pub open spec fn packed_casters(
    casters: Seq<WgrShadowCaster>,
    count: nat,
    meshes: Map<u64, Record>,
) -> Seq<u32>
    decreases count,
{
    if count == 0 {
        Seq::empty()
    } else {
        let c = (count - 1) as u32;
        cascade_plan(casters, c, meshes, packed_casters(casters, (count - 1) as nat, meshes)).0
    }
}

/// The draws of cascade `c`.
pub open spec fn cascade_draws(
    casters: Seq<WgrShadowCaster>,
    c: nat,
    meshes: Map<u64, Record>,
) -> Seq<ShadowBucket> {
    cascade_plan(casters, c as u32, meshes, packed_casters(casters, c, meshes)).1
}

/// The end of every section that is looked at can be counted in 32 bits.
pub open spec fn casters_countable(
    casters: Seq<WgrShadowCaster>,
    count: u32,
    meshes: Map<u64, Record>,
) -> bool {
    forall|i: int|
        0 <= i < casters.len() && (#[trigger] casters[i]).index_count != 0 && mesh_at(
            meshes,
            casters[i].mesh,
        ) is Some && (exists|c: u32|
            c < count && casters[i].cascade_mask & #[trigger] (1u32 << c) != 0)
            ==> casters[i].index_end() <= u32::MAX
}

fn plan_cascade(
    meshes: &HandleTable,
    casters: &[WgrShadowCaster],
    c: u32,
    count: u32,
    packed: &mut Vec<u32>,
) -> (draws: Vec<ShadowBucket>)
    requires
        c < count <= MAX_CASCADES,
        casters_countable(casters@, count, meshes@),
        old(packed)@.len() + casters@.len() <= u32::MAX,
    ensures
        (final(packed)@, draws@) == cascade_plan(casters@, c, meshes@, old(packed)@),
        final(packed)@.len() <= old(packed)@.len() + casters@.len(),
{
    let ghost packed0 = packed@;
    let mut draws: Vec<ShadowBucket> = Vec::new();
    let mut run = Buckets::new();
    let mut i: usize = 0;
    proof {
        assert(run@ =~= Seq::empty());
        assert(draws@ =~= Seq::empty());
    }
    while i < casters.len()
        invariant
            i <= casters@.len(),
            c < count <= MAX_CASCADES,
            casters_countable(casters@, count, meshes@),
            packed0.len() + casters@.len() <= u32::MAX,
            run.wf(),
            packed@.len() + run@.len() <= packed0.len() + i,
            ({
                let st = gathered(casters@, i as nat, c, meshes@, packed0);
                st.packed == packed@ && st.draws == draws@ && st.run == run@
            }),
        decreases casters@.len() - i,
    {
        let caster: &WgrShadowCaster = &casters[i];
        let index: u32 = i as u32;
        i = i + 1;
        if caster.cascade_mask & (1u32 << c) == 0 || caster.index_count == 0 {
            continue ;
        }
        if let Some(m) = find_mesh(meshes, caster.mesh) {
            assert(casters@[i - 1].index_end() <= u32::MAX);
            if caster.index_begin + caster.index_count <= m.index_count {
                let skinned: bool = caster.palette_slot != NO_PALETTE && m.skinned;
                if skinned {
                    let base: u32 = packed.len() as u32;
                    packed.push(index);
                    draws.push(ShadowBucket { repr: index, base, count: 1 });
                } else {
                    let key: GroupKey = if bits::lt(0, caster.alpha_ref) {
                        (
                            caster.mesh,
                            caster.index_begin,
                            caster.index_count,
                            caster.texture_id,
                            caster.sampler.0,
                            1,
                            0,
                        )
                    } else {
                        (caster.mesh, caster.index_begin, caster.index_count, 0, 0, 0, 0)
                    };
                    run.push(key, index);
                }
            }
        }
    }
    let ghost st = gathered(casters@, casters@.len(), c, meshes@, packed0);
    let ghost groups = bucketed(st.run);
    let members: Vec<Vec<u32>> = run.take();
    proof {
        buckets_hold_the_items(st.run);
    }
    let mut g: usize = 0;
    while g < members.len()
        invariant
            g <= members@.len(),
            groups == bucketed(st.run),
            members@.len() == groups.len(),
            forall|j: int| 0 <= j < members@.len() ==> (#[trigger] members@[j])@ == groups[j],
            forall|j: int| 0 <= j < groups.len() ==> (#[trigger] groups[j]).len() > 0,
            flat(groups).len() == st.run.len(),
            st.packed.len() + st.run.len() <= packed0.len() + casters@.len(),
            packed0.len() + casters@.len() <= u32::MAX,
            (packed@, draws@) == pack(st.packed, st.draws, groups.take(g as int)),
            packed@.len() == st.packed.len() + flat(groups.take(g as int)).len(),
        decreases members@.len() - g,
    {
        proof {
            assert(groups.take(g + 1).drop_last() =~= groups.take(g as int));
            flat_grows(groups, g + 1);
        }
        let base: u32 = packed.len() as u32;
        let group: &Vec<u32> = &members[g];
        let repr: u32 = group[0];
        let count: u32 = group.len() as u32;
        packed.extend_from_slice(group.as_slice());
        assert(packed@ =~= pack(st.packed, st.draws, groups.take(g as int)).0 + groups[g as int]);
        draws.push(ShadowBucket { repr, base, count });
        g = g + 1;
    }
    assert(groups.take(groups.len() as int) =~= groups);
    draws
}

/// Plans the draws of `count` cascades: within each, casters that share everything but their
/// place are coalesced into one instanced draw, and casters with bones are drawn alone.
pub fn plan_shadows(meshes: &HandleTable, casters: &[WgrShadowCaster], count: u32) -> (plan:
    ShadowPlan)
    requires
        count <= MAX_CASCADES,
        casters_countable(casters@, count, meshes@),
        count * casters@.len() <= u32::MAX,
    ensures
        plan.packed@ == packed_casters(casters@, count as nat, meshes@),
        plan.cascades@.len() == count,
        forall|c: int|
            0 <= c < count ==> (#[trigger] plan.cascades@[c])@ == cascade_draws(
                casters@,
                c as nat,
                meshes@,
            ),
{
    let mut packed: Vec<u32> = Vec::new();
    let mut cascades: Vec<Vec<ShadowBucket>> = Vec::new();
    let mut c: u32 = 0;
    assert(packed@ =~= Seq::empty());
    assert(0int * casters@.len() == 0) by (nonlinear_arith);
    while c < count
        invariant
            c <= count <= MAX_CASCADES,
            casters_countable(casters@, count, meshes@),
            count * casters@.len() <= u32::MAX,
            packed@ == packed_casters(casters@, c as nat, meshes@),
            packed@.len() <= c * casters@.len(),
            cascades@.len() == c,
            forall|k: int|
                0 <= k < c ==> (#[trigger] cascades@[k])@ == cascade_draws(
                    casters@,
                    k as nat,
                    meshes@,
                ),
        decreases count - c,
    {
        assert(c * casters@.len() + casters@.len() == (c + 1) * casters@.len() && (c + 1)
            * casters@.len() <= count * casters@.len()) by (nonlinear_arith)
            requires
                c < count,
                casters@.len() >= 0,
        ;
        let draws = plan_cascade(meshes, casters, c, count, &mut packed);
        cascades.push(draws);
        c = c + 1;
    }
    ShadowPlan { packed, cascades }
}

} // verus!
