use crate::ffi::{WgrDraw3D, WgrShadowCaster, WgrShadowPass};
use crate::gfx3d::caster_laws::{has_bones as caster_has_bones, is_cut};
use crate::gfx3d::draw_laws::has_bones;
use crate::gfx3d::mesh::PipelineKey;
use crate::gfx3d::pass_laws::{one_key_suits, read_as, suits};
use crate::gfx3d::scene::{
    can_probe, cascade_count, has_shadows, interleaved, keys_with, padded_row, probe_vertices,
    shadow_draw, shadow_draws, still_caster, unpadded, wants_bones, whole_triangles, CameraGroup,
    FrameInputs, Gfx3d, ShadowDraw,
};
use crate::gfx3d::shadows::ShadowBucket;
use crate::math::{least_power_of_two_bounds, POWER_OF_TWO_LIMIT};
use crate::slots::Record;
use vstd::prelude::*;

verus! {

// What a scene prepares and draws, said of what it was given.

/// A bucket of casters is drawn: its mesh is live, and if it moves with bones, bones are bound.
pub open spec fn is_cast(
    caster: WgrShadowCaster,
    meshes: Map<u64, Record>,
    palette_bound: bool,
) -> bool {
    &&& meshes.dom().contains(read_as(caster.mesh))
    &&& caster_has_bones(caster, meshes) ==> palette_bound
}

/// The draw is that of the bucket: its caster's mesh and indices, once for each of the bucket's
/// slots, with the caster's bones if it has some, and cut out by its texture if it is cut.
pub open spec fn draws_cast(
    d: ShadowDraw,
    bucket: ShadowBucket,
    caster: WgrShadowCaster,
    meshes: Map<u64, Record>,
    palette_stride: u64,
) -> bool {
    &&& d.mesh == read_as(caster.mesh)
    &&& d.first == caster.index_begin
    &&& d.end == caster.index_begin + caster.index_count
    &&& d.base == bucket.base
    &&& d.base_end == bucket.base + bucket.count
    &&& d.skinned == caster_has_bones(caster, meshes)
    &&& d.skinned ==> d.palette_offset == (caster.palette_slot * palette_stride) as u32
    &&& !d.skinned ==> d.palette_offset == 0
    &&& d.cutout == is_cut(caster)
    &&& d.cutout ==> d.texture == caster.texture_id
    &&& !d.cutout ==> d.texture == 0
    &&& d.sampler == caster.sampler.0 as usize
}

/// Buckets are drawn in order, each whose caster can be drawn by one draw, the others by none.
pub proof fn casts_are_drawn_as_planned(
    buckets: Seq<ShadowBucket>,
    last: ShadowBucket,
    casters: Seq<WgrShadowCaster>,
    meshes: Map<u64, Record>,
    palette_bound: bool,
    palette_stride: u64,
)
    requires
        last.repr < casters.len(),
        casters[last.repr as int].index_begin + casters[last.repr as int].index_count <= u32::MAX,
        last.base + last.count <= u32::MAX,
    ensures
        ({
            let before = shadow_draws(buckets, casters, meshes, palette_bound, palette_stride);
            let all = shadow_draws(
                buckets.push(last),
                casters,
                meshes,
                palette_bound,
                palette_stride,
            );
            let caster = casters[last.repr as int];
            &&& buckets.len() == 0 ==> before.len() == 0
            &&& !is_cast(caster, meshes, palette_bound) ==> all == before
            &&& is_cast(caster, meshes, palette_bound) ==> all.len() == before.len() + 1
                && all.drop_last() == before && draws_cast(
                all.last(),
                last,
                caster,
                meshes,
                palette_stride,
            )
        }),
{
    assert(buckets.push(last).drop_last() =~= buckets);
    let before = shadow_draws(buckets, casters, meshes, palette_bound, palette_stride);
    let caster = casters[last.repr as int];
    match shadow_draw(last, &caster, meshes, palette_bound, palette_stride) {
        Some(d) => {
            assert(before.push(d).drop_last() =~= before);
        },
        None => {},
    }
}

/// The draw's pipeline moves vertices with bones.
pub open spec fn needs_bones(d: WgrDraw3D, meshes: Map<u64, Record>) -> bool {
    meshes.dom().contains(read_as(d.mesh)) && has_bones(d, meshes)
}

/// Preparing draws keeps the pipelines that were built, in their places; builds one for every
/// draw; builds none twice; and none that no draw asks for.
pub proof fn pipelines_are_built_once(
    keys: Seq<PipelineKey>,
    draws: Seq<WgrDraw3D>,
    n: nat,
    meshes: Map<u64, Record>,
)
    requires
        n <= draws.len(),
        keys.no_duplicates(),
    ensures
        ({
            let all = keys_with(keys, draws, n, meshes);
            &&& keys.len() <= all.len() <= keys.len() + n
            &&& all.take(keys.len() as int) == keys
            &&& all.no_duplicates()
            &&& forall|i: int|
                0 <= i < n ==> exists|k: int|
                    0 <= k < all.len() && suits(
                        #[trigger] all[k],
                        #[trigger] draws[i],
                        needs_bones(draws[i], meshes),
                    )
            &&& forall|k: int|
                keys.len() <= k < all.len() ==> exists|i: int|
                    0 <= i < n && suits(
                        #[trigger] all[k],
                        #[trigger] draws[i],
                        needs_bones(draws[i], meshes),
                    )
        }),
    decreases n,
{
    let all = keys_with(keys, draws, n, meshes);
    if n == 0 {
        assert(keys.take(keys.len() as int) =~= keys);
    } else {
        let m = (n - 1) as nat;
        let before = keys_with(keys, draws, m, meshes);
        let d = draws[n - 1];
        let key = PipelineKey::of_draw(&d, wants_bones(&d, meshes));
        pipelines_are_built_once(keys, draws, m, meshes);
        assert(wants_bones(&d, meshes) == needs_bones(d, meshes));
        one_key_suits(key, d, needs_bones(d, meshes));
        assert(all.take(before.len() as int) =~= before);
        assert(all.take(keys.len() as int) =~= before.take(keys.len() as int));
        assert forall|i: int| 0 <= i < n implies exists|k: int|
            0 <= k < all.len() && suits(
                #[trigger] all[k],
                #[trigger] draws[i],
                needs_bones(draws[i], meshes),
            ) by {
            if i < m {
                let k = choose|k: int|
                    0 <= k < before.len() && suits(
                        #[trigger] before[k],
                        #[trigger] draws[i],
                        needs_bones(draws[i], meshes),
                    );
                assert(all[k] == before[k]);
            } else {
                assert(all.contains(key)) by {
                    if !before.contains(key) {
                        assert(all[before.len() as int] == key);
                    }
                }
                let k = choose|k: int| 0 <= k < all.len() && all[k] == key;
                assert(suits(all[k], draws[i], needs_bones(draws[i], meshes)));
            }
        }
        assert forall|k: int| keys.len() <= k < all.len() implies exists|i: int|
            0 <= i < n && suits(
                #[trigger] all[k],
                #[trigger] draws[i],
                needs_bones(draws[i], meshes),
            ) by {
            if k < before.len() {
                assert(all[k] == before[k]);
                let i = choose|i: int|
                    0 <= i < m && suits(
                        #[trigger] before[k],
                        #[trigger] draws[i],
                        needs_bones(draws[i], meshes),
                    );
                assert(suits(all[k], draws[i], needs_bones(draws[i], meshes)));
            } else {
                assert(suits(all[k], draws[n - 1], needs_bones(draws[n - 1], meshes)));
            }
        }
    }
}

/// A prepared frame has room for its cameras, for the places and materials of its slots, and for
/// its bone matrices, a hundred and twenty-eight to a block. What has room already is kept, and
/// what has not gets some to spare. What is bound stays bound; instances and bones get bound as
/// soon as there is something to bind. Meshes, the depth target and shadows stay as they are.
pub proof fn a_prepared_frame_has_room(
    before: Gfx3d,
    after: Gfx3d,
    slots: nat,
    inputs: FrameInputs,
    keys: Seq<PipelineKey>,
)
    requires
        before.wf(),
        before.countable(inputs, slots),
        before.prepared(inputs, slots, keys, &after),
    ensures
        inputs.cameras > 0 ==> after.cameras.bound && after.cameras.buf.exists
            && after.cameras.buf.cap >= inputs.cameras * before.cameras.stride,
        inputs.cameras == 0 ==> after.cameras == before.cameras,
        slots > 0 ==> after.world.exists && after.world.cap >= 112 * slots,
        slots > 0 ==> after.material.exists && after.material.cap >= 96 * slots,
        slots > 0 ==> after.plain_bound,
        slots == 0 ==> after.world == before.world && after.material == before.material,
        before.world.exists && before.world.cap >= 112 * slots ==> after.world == before.world,
        before.material.exists && before.material.cap >= 96 * slots ==> after.material
            == before.material,
        after.world != before.world ==> after.world.cap >= 4096,
        after.material != before.material ==> after.material.cap >= 4096,
        before.palette.exists && before.palette.cap >= (inputs.palette_len / 128)
            * before.palette_stride ==> after.palette == before.palette,
        after.palette != before.palette ==> after.palette.cap >= 64 * before.palette_stride,
        inputs.palette_len >= 128 ==> after.palette.exists && after.palette.cap
            >= (inputs.palette_len / 128) * before.palette_stride,
        inputs.palette_len < 128 ==> after.palette == before.palette,
        inputs.palette_len >= 128 && slots > 0 ==> after.skinned_bound,
        before.plain_bound ==> after.plain_bound,
        before.skinned_bound ==> after.skinned_bound,
        after.plain_bound ==> before.plain_bound || (after.world.exists && after.material.exists),
        after.skinned_bound ==> before.skinned_bound || (after.palette.exists
            && after.material.exists),
        after.ground_gen == inputs.ground_gen,
        after.meshes == before.meshes,
        after.depth_size == before.depth_size,
        after.shadow_target == before.shadow_target,
        after.shadow_gen == before.shadow_gen,
        after.shadow_plan == before.shadow_plan,
        after.shadow_casters == before.shadow_casters,
        after.shadow_pass == before.shadow_pass,
{
    let blocks = inputs.palette_len / 128;
    least_power_of_two_bounds((slots * 112) as int);
    least_power_of_two_bounds((slots * 96) as int);
    assert(0 <= inputs.cameras * before.cameras.stride) by (nonlinear_arith);
    assert(0 <= blocks * before.palette_stride) by (nonlinear_arith);
    least_power_of_two_bounds(inputs.cameras * before.cameras.stride);
    least_power_of_two_bounds(blocks * before.palette_stride);
}

/// The cameras are bound anew exactly if they were not bound, if there are more than there is room
/// for, or if the shadow map or the mask that they are bound with is another; and they are then
/// bound with those. What holds them never shrinks.
pub proof fn cameras_follow_what_is_lent(
    g: CameraGroup,
    count: int,
    shadow_gen: u64,
    mask_gen: u64,
)
    requires
        0 <= count * g.stride <= POWER_OF_TWO_LIMIT,
        g.stride <= u32::MAX,
    ensures
        ({
            let after = g.after(count, shadow_gen, mask_gen);
            let room = g.buf.exists && g.buf.cap >= count * g.stride;
            &&& !g.stale(count, shadow_gen, mask_gen) <==> g.bound && room && g.bound_shadow_gen
                == shadow_gen && g.bound_mask_gen == mask_gen
            &&& !g.stale(count, shadow_gen, mask_gen) ==> after == g
            &&& after.bound
            &&& after.bound_shadow_gen == shadow_gen
            &&& after.bound_mask_gen == mask_gen
            &&& after.stride == g.stride
            &&& room ==> after.buf == g.buf
            &&& after.buf.exists && after.buf.cap >= count * g.stride
            &&& !room ==> after.buf.cap >= 8 * g.stride
            &&& !after.stale(count, shadow_gen, mask_gen)
        }),
{
    least_power_of_two_bounds(count * g.stride);
}

/// Shadows are drawn if there are cascades, casters and a resolution; into as many cascades as
/// asked for, but no more than four, and no more than there is a depth map or a plan for.
pub proof fn shadows_are_drawn_if_asked(
    pass: WgrShadowPass,
    casters: Seq<WgrShadowCaster>,
    g: Gfx3d,
)
    ensures
        has_shadows(&pass, casters) <==> pass.count > 0 && pass.resolution > 0 && casters.len() > 0,
        cascade_count(&pass) <= 4,
        cascade_count(&pass) <= pass.count,
        pass.count <= 4 ==> cascade_count(&pass) == pass.count,
        pass.count > 4 ==> cascade_count(&pass) == 4,
        g.cascades_drawn(&pass) <= cascade_count(&pass),
        g.cascades_drawn(&pass) <= g.shadow_plan@.len(),
        g.shadow_target matches Some(t) ==> g.cascades_drawn(&pass) <= t.layers && (
        cascade_count(&pass) <= t.layers && cascade_count(&pass) <= g.shadow_plan@.len()
            ==> g.cascades_drawn(&pass) == cascade_count(&pass)),
        g.shadows_ready() <==> (g.shadow_target is Some && g.shadow_pipelines
            && g.shadow_pass.exists && g.shadow_casters_bound),
{
}

/// Each vertex of a skin is eight bytes: its four bones, then their four weights.
pub proof fn skins_are_interleaved(bones: Seq<u8>, weights: Seq<u8>, n: nat, v: int, k: int)
    requires
        bones.len() >= 4 * n,
        weights.len() >= 4 * n,
        0 <= v < n,
        0 <= k < 4,
    ensures
        interleaved(bones, weights, n).len() == 8 * n,
        interleaved(bones, weights, n)[8 * v + k] == bones[4 * v + k],
        interleaved(bones, weights, n)[8 * v + 4 + k] == weights[4 * v + k],
    decreases n,
{
    let m = (n - 1) as nat;
    skins_are_so_long(bones, weights, m);
    if v < m {
        skins_are_interleaved(bones, weights, m, v, k);
    }
}

proof fn skins_are_so_long(bones: Seq<u8>, weights: Seq<u8>, n: nat)
    requires
        bones.len() >= 4 * n,
        weights.len() >= 4 * n,
    ensures
        interleaved(bones, weights, n).len() == 8 * n,
    decreases n,
{
    if n > 0 {
        skins_are_so_long(bones, weights, (n - 1) as nat);
    }
}

/// Taking the padding off keeps every byte of every row, in order.
pub proof fn rows_are_kept(data: Seq<u8>, row: int, padded: int, rows: nat, y: int, x: int)
    requires
        0 <= row <= padded,
        rows * padded <= data.len(),
        0 <= y < rows,
        0 <= x < row,
    ensures
        unpadded(data, row, padded, rows).len() == rows * row,
        unpadded(data, row, padded, rows)[y * row + x] == data[y * padded + x],
    decreases rows,
{
    let m = (rows - 1) as nat;
    assert(m * padded <= rows * padded && rows * padded == m * padded + padded) by (nonlinear_arith)
        requires
            rows == m + 1,
            padded >= 0,
    ;
    assert(0 <= m * padded) by (nonlinear_arith)
        requires
            padded >= 0,
    ;
    assert(rows * row == m * row + row) by (nonlinear_arith)
        requires
            rows == m + 1,
    ;
    rows_are_so_long(data, row, padded, m);
    assert(0 <= y * row) by (nonlinear_arith)
        requires
            y >= 0,
            row >= 0,
    ;
    if y < m {
        rows_are_kept(data, row, padded, m, y, x);
        assert(y * row + row <= m * row) by (nonlinear_arith)
            requires
                y + 1 <= m,
                row >= 0,
        ;
    } else {
        assert(y * row == m * row && y * padded == m * padded);
    }
}

proof fn rows_are_so_long(data: Seq<u8>, row: int, padded: int, rows: nat)
    requires
        0 <= row <= padded,
        rows * padded <= data.len(),
    ensures
        unpadded(data, row, padded, rows).len() == rows * row,
    decreases rows,
{
    if rows > 0 {
        let m = (rows - 1) as nat;
        assert(rows * padded == m * padded + padded && 0 <= m * padded) by (nonlinear_arith)
            requires
                rows == m + 1,
                padded >= 0,
        ;
        assert(rows * row == m * row + row) by (nonlinear_arith)
            requires
                rows == m + 1,
        ;
        rows_are_so_long(data, row, padded, m);
    } else {
        assert(0 * row == 0) by (nonlinear_arith);
    }
}

/// A row of depths, four bytes each, is padded to the next multiple of what a device copies by.
pub proof fn rows_are_padded(res: int, align: int)
    requires
        res >= 0,
        align > 0,
    ensures
        padded_row(res, align) % align == 0,
        4 * res <= padded_row(res, align) < 4 * res + align,
{
    let q = (res * 4 + align - 1) / align;
    vstd::arithmetic::div_mod::lemma_fundamental_div_mod(res * 4 + align - 1, align);
    vstd::arithmetic::div_mod::lemma_mod_pos_bound(res * 4 + align - 1, align);
    vstd::arithmetic::div_mod::lemma_mod_multiples_basic(q, align);
    assert(align * q == q * align) by (nonlinear_arith);
}

/// Triangles are probed if there are some, no more vertices than sixteen bits count, no vertex is
/// without its triangle, and there is room for a depth per point of the map.
pub proof fn whole_triangles_are_probed(coords: int, res: u32, out_len: int)
    requires
        coords >= 0,
    ensures
        whole_triangles(coords) <==> exists|t: int|
            0 < t && 3 * t <= 65535 && #[trigger] (9 * t) <= coords < 9 * t + 3,
        can_probe(coords, res, out_len) <==> whole_triangles(coords) && out_len >= res * res,
{
    let verts = coords / 3;
    if whole_triangles(coords) {
        let t = verts / 3;
        assert(0 < t && 3 * t <= 65535 && 9 * t <= coords < 9 * t + 3);
    }
    if exists|t: int| 0 < t && 3 * t <= 65535 && #[trigger] (9 * t) <= coords < 9 * t + 3 {
        let t = choose|t: int|
            0 < t && 3 * t <= 65535 && #[trigger] (9 * t) <= coords < 9 * t + 3;
        assert(verts == 3 * t);
    }
}

/// A probe's vertex is nine words, of which the first three are its place and the others zero;
/// and its caster stays where it is: its matrix has ones along the diagonal and zeros elsewhere,
/// and it follows no ground.
pub proof fn probes_are_places(xyz: Seq<u32>, verts: nat, v: int, k: int, row: int, column: int)
    requires
        3 * verts <= xyz.len(),
        0 <= v < verts,
        0 <= k < 9,
        0 <= row < 4,
        0 <= column < 4,
    ensures
        probe_vertices(xyz, verts).len() == 9 * verts,
        k < 3 ==> probe_vertices(xyz, verts)[9 * v + k] == xyz[3 * v + k],
        k >= 3 ==> probe_vertices(xyz, verts)[9 * v + k] == 0,
        still_caster().len() == 24,
        row == column ==> still_caster()[4 * row + column] == 0x3f80_0000,
        row != column ==> still_caster()[4 * row + column] == 0,
        forall|w: int| 16 <= w < 24 ==> #[trigger] still_caster()[w] == 0,
{
    let w = 9 * v + k;
    assert(w % 9 == k && w / 9 == v);
}

/// What changes meshes changes nothing else, and what changes no shadows leaves everything that
/// they are drawn with.
pub proof fn nothing_else_changes(a: Gfx3d, b: Gfx3d)
    ensures
        a.same_but_meshes(&b) <==> {
            &&& a.pipelines == b.pipelines
            &&& a.cameras == b.cameras
            &&& a.ground_gen == b.ground_gen
            &&& a.world == b.world
            &&& a.material == b.material
            &&& a.palette_stride == b.palette_stride
            &&& a.palette == b.palette
            &&& a.plain_bound == b.plain_bound
            &&& a.skinned_bound == b.skinned_bound
            &&& a.depth_size == b.depth_size
            &&& a.same_shadows(&b)
        },
        a.same_shadows(&b) <==> {
            &&& a.shadow_pass_stride == b.shadow_pass_stride
            &&& a.shadow_pass == b.shadow_pass
            &&& a.shadow_casters == b.shadow_casters
            &&& a.shadow_casters_bound == b.shadow_casters_bound
            &&& a.shadow_pipelines == b.shadow_pipelines
            &&& a.shadow_target == b.shadow_target
            &&& a.shadow_gen == b.shadow_gen
            &&& a.shadow_plan == b.shadow_plan
        },
        a.same_but_meshes(&b) && a.meshes == b.meshes ==> a == b,
{
}

/// Nothing is bound for cameras at first, whatever the device asks for; so the first cameras are
/// always bound.
pub proof fn the_first_cameras_are_bound(
    min_align: u32,
    count: int,
    shadow_gen: u64,
    mask_gen: u64,
)
    ensures
        ({
            let g = CameraGroup::fresh(min_align);
            !g.bound && !g.buf.exists && g.buf.cap == 0 && g.stale(count, shadow_gen, mask_gen)
        }),
{
}

} // verus!
