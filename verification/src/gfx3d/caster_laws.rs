use crate::ffi::WgrShadowCaster;
use crate::gfx3d::shadow_laws::{
    a_cascade_draws_its_casters, a_cascade_is_coalesced, casters_of, casts_agree, casts_in_order,
    casts_tile, shared_slot,
};
use crate::gfx3d::shadows::{
    cascade_draws, caster_key, casts_alone, casts_into, is_cutout, packed_casters, ShadowBucket,
};
use crate::slots::{canonical, Record};
use vstd::prelude::*;

verus! {

// What the draws of a cascade are, said of the casters that they are made for and of the records
// of their meshes: how many indices a mesh has, how many vertices, and whether bones are attached
// to them.

/// The caster asks to be drawn into cascade `c`, has indices, and a live mesh has them too.
pub open spec fn is_seen(caster: WgrShadowCaster, c: u32, meshes: Map<u64, Record>) -> bool {
    &&& (caster.cascade_mask >> c) & 1 == 1
    &&& caster.index_count > 0
    &&& meshes.dom().contains(canonical(caster.mesh))
    &&& caster.index_begin + caster.index_count <= meshes[canonical(caster.mesh)].0
}

/// The caster moves with bones of its own: it names some, and its mesh has some.
pub open spec fn has_bones(caster: WgrShadowCaster, meshes: Map<u64, Record>) -> bool {
    caster.palette_slot != 0xffff_ffff && meshes[canonical(caster.mesh)].2 != 0
}

/// The caster's cutout threshold is above zero: its texture cuts its shadow out.
pub open spec fn is_cut(caster: WgrShadowCaster) -> bool {
    0 < caster.alpha_ref <= 0x7f80_0000
}

/// The casters' shadows differ only in where they fall.
pub open spec fn cast_alike(a: WgrShadowCaster, b: WgrShadowCaster) -> bool {
    &&& a.mesh == b.mesh
    &&& a.index_begin == b.index_begin
    &&& a.index_count == b.index_count
    &&& is_cut(a) == is_cut(b)
    &&& is_cut(a) ==> a.texture_id == b.texture_id && a.sampler == b.sampler
}

proof fn what_casters_do(a: WgrShadowCaster, b: WgrShadowCaster, c: u32, meshes: Map<u64, Record>)
    requires
        c < 4,
    ensures
        casts_into(&a, c, meshes) == is_seen(a, c, meshes),
        is_seen(a, c, meshes) ==> casts_alone(&a, meshes) == has_bones(a, meshes),
        is_cutout(&a) == is_cut(a),
        caster_key(&a) == caster_key(&b) <==> cast_alike(a, b),
{
    let mask = a.cascade_mask;
    assert(mask & (1u32 << c) != 0 <==> (mask >> c) & 1 == 1) by (bit_vector)
        requires
            c < 4,
    ;
}

/// The slots of the first cascades stay where they are when more cascades follow.
pub proof fn slots_stay(
    casters: Seq<WgrShadowCaster>,
    fewer: nat,
    more: nat,
    meshes: Map<u64, Record>,
)
    requires
        fewer <= more <= 4,
        more * casters.len() <= u32::MAX,
    ensures
        packed_casters(casters, fewer, meshes).is_prefix_of(packed_casters(casters, more, meshes)),
    decreases more - fewer,
{
    if fewer < more {
        let next = (more - 1) as nat;
        assert(next * casters.len() <= more * casters.len()) by (nonlinear_arith)
            requires
                next <= more,
                casters.len() >= 0,
        ;
        slots_stay(casters, fewer, next, meshes);
        a_cascade_draws_its_casters(casters, next, meshes);
    }
}

/// The slot belongs to the draw.
pub open spec fn covers(d: ShadowBucket, slot: int) -> bool {
    d.base <= slot < d.base + d.count
}

/// Everything in the slots of one draw of a cascade is seen by it, and casts its shadow like the
/// caster that stands for the draw; what moves with bones is drawn alone.
pub proof fn slots_of_a_cast_are_alike(
    casters: Seq<WgrShadowCaster>,
    count: nat,
    c: nat,
    meshes: Map<u64, Record>,
    i: int,
    s: int,
)
    requires
        c < count <= 4,
        count * casters.len() <= u32::MAX,
        0 <= i < cascade_draws(casters, c, meshes).len(),
        covers(cascade_draws(casters, c, meshes)[i], s),
    ensures
        ({
            let packed = packed_casters(casters, count, meshes);
            let d = cascade_draws(casters, c, meshes)[i];
            let x = packed[s];
            &&& s < packed.len()
            &&& x < casters.len()
            &&& d.repr < casters.len()
            &&& packed[d.base as int] == d.repr
            &&& is_seen(casters[x as int], c as u32, meshes)
            &&& cast_alike(casters[x as int], casters[d.repr as int])
            &&& has_bones(casters[x as int], meshes) ==> d.count == 1 && x == d.repr
        }),
{
    assert((c + 1) * casters.len() <= count * casters.len()) by (nonlinear_arith)
        requires
            c + 1 <= count,
            casters.len() >= 0,
    ;
    slots_stay(casters, c + 1, count, meshes);
    a_cascade_draws_its_casters(casters, c, meshes);
    let own = packed_casters(casters, c + 1, meshes);
    let packed = packed_casters(casters, count, meshes);
    let draws = cascade_draws(casters, c, meshes);
    let d = draws[i];
    assert(own.len() <= packed.len() && own[d.base as int] == d.repr && d.base + d.count
        <= own.len()) by {
        reveal(casts_tile);
    }
    assert(packed[s] == own[s] && packed[d.base as int] == own[d.base as int]);
    let x = own[s];
    assert(d.repr < casters.len() && x < casters.len() && casts_into(
        &casters[x as int],
        c as u32,
        meshes,
    ) && caster_key(&casters[x as int]) == caster_key(&casters[d.repr as int]) && (d.count > 1
        ==> !casts_alone(&casters[x as int], meshes))) by {
        reveal(casts_agree);
        assert(draws[i].base <= s < draws[i].base + draws[i].count);
    }
    what_casters_do(casters[x as int], casters[d.repr as int], c as u32, meshes);
}

/// Casters without bones are drawn together if their shadows differ only in where they fall, and
/// only then.
pub proof fn alike_casts_together(
    casters: Seq<WgrShadowCaster>,
    count: nat,
    c: nat,
    meshes: Map<u64, Record>,
    i: int,
    j: int,
    s: int,
    t: int,
)
    requires
        c < count <= 4,
        count * casters.len() <= u32::MAX,
        0 <= i < cascade_draws(casters, c, meshes).len(),
        0 <= j < cascade_draws(casters, c, meshes).len(),
        covers(cascade_draws(casters, c, meshes)[i], s),
        covers(cascade_draws(casters, c, meshes)[j], t),
        !has_bones(casters[packed_casters(casters, count, meshes)[s] as int], meshes),
        !has_bones(casters[packed_casters(casters, count, meshes)[t] as int], meshes),
    ensures
        i == j <==> cast_alike(
            casters[packed_casters(casters, count, meshes)[s] as int],
            casters[packed_casters(casters, count, meshes)[t] as int],
        ),
{
    assert((c + 1) * casters.len() <= count * casters.len()) by (nonlinear_arith)
        requires
            c + 1 <= count,
            casters.len() >= 0,
    ;
    slots_of_a_cast_are_alike(casters, c + 1, c, meshes, i, s);
    slots_of_a_cast_are_alike(casters, c + 1, c, meshes, j, t);
    slots_stay(casters, c + 1, count, meshes);
    a_cascade_is_coalesced(casters, c, meshes);
    let own = packed_casters(casters, c + 1, meshes);
    let packed = packed_casters(casters, count, meshes);
    assert(packed[s] == own[s] && packed[t] == own[t]);
    let (a, b) = (casters[own[s] as int], casters[own[t] as int]);
    what_casters_do(a, b, c as u32, meshes);
    what_casters_do(b, a, c as u32, meshes);
    let draws = cascade_draws(casters, c, meshes);
    assert(shared_slot(draws[i], s, own, casters, meshes));
    assert(shared_slot(draws[j], t, own, casters, meshes));
}

proof fn casters_of_holds(
    casters: Seq<WgrShadowCaster>,
    n: nat,
    c: u32,
    meshes: Map<u64, Record>,
    x: u32,
)
    requires
        c < 4,
        n <= casters.len() <= u32::MAX,
    ensures
        casters_of(casters, n, c, meshes).to_multiset().count(x) == if x < n && is_seen(
            casters[x as int],
            c,
            meshes,
        ) {
            1nat
        } else {
            0nat
        },
    decreases n,
{
    broadcast use vstd::seq_lib::group_to_multiset_ensures;

    if n > 0 {
        casters_of_holds(casters, (n - 1) as nat, c, meshes, x);
        what_casters_do(casters[n - 1], casters[n - 1], c, meshes);
    }
}

/// Every caster that a cascade sees has one slot of the cascade, and no other caster has one.
pub proof fn a_cascade_holds_what_it_sees(
    casters: Seq<WgrShadowCaster>,
    c: nat,
    meshes: Map<u64, Record>,
    x: u32,
)
    requires
        c < 4,
        (c + 1) * casters.len() <= u32::MAX,
    ensures
        ({
            let start = packed_casters(casters, c, meshes).len() as int;
            let own = packed_casters(casters, c + 1, meshes).skip(start);
            own.to_multiset().count(x) == if x < casters.len() && is_seen(
                casters[x as int],
                c as u32,
                meshes,
            ) {
                1nat
            } else {
                0nat
            }
        }),
{
    assert(casters.len() <= (c + 1) * casters.len()) by (nonlinear_arith)
        requires
            casters.len() >= 0,
            c >= 0,
    ;
    a_cascade_draws_its_casters(casters, c, meshes);
    casters_of_holds(casters, casters.len(), c as u32, meshes, x);
}

/// Draws of casters with bones come before the others; either come in the order of the casters
/// that stand for them.
pub proof fn casts_come_in_order(
    casters: Seq<WgrShadowCaster>,
    c: nat,
    meshes: Map<u64, Record>,
    i: int,
    j: int,
)
    requires
        c < 4,
        (c + 1) * casters.len() <= u32::MAX,
        0 <= i < j < cascade_draws(casters, c, meshes).len(),
    ensures
        ({
            let draws = cascade_draws(casters, c, meshes);
            let (a, b) = (draws[i].repr, draws[j].repr);
            let (first, second) = (
                has_bones(casters[a as int], meshes),
                has_bones(casters[b as int], meshes),
            );
            &&& second ==> first
            &&& first == second ==> a < b
        }),
{
    a_cascade_draws_its_casters(casters, c, meshes);
    a_cascade_is_coalesced(casters, c, meshes);
    let draws = cascade_draws(casters, c, meshes);
    let (p, q) = (draws[i], draws[j]);
    assert(p.count > 0 && q.count > 0) by {
        reveal(casts_tile);
    }
    slots_of_a_cast_are_alike(casters, c + 1, c, meshes, i, p.base as int);
    slots_of_a_cast_are_alike(casters, c + 1, c, meshes, j, q.base as int);
    what_casters_do(casters[p.repr as int], casters[p.repr as int], c as u32, meshes);
    what_casters_do(casters[q.repr as int], casters[q.repr as int], c as u32, meshes);
    assert(casts_in_order(draws, casters, meshes));
}

} // verus!
