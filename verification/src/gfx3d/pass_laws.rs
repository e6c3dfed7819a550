use crate::ffi::{WgrBlend, WgrDraw3D};
use crate::gfx3d::draw_laws::{has_bones, shows};
use crate::gfx3d::mesh::{mesh_at, offset_of, Offset, PipelineKey};
use crate::gfx3d::pass::{
    can_draw, draw_cmds, draw_skinned, drawn_state, kept, leaving_out_known_state_is_safe,
    obey_all, pipeline_position, tracks, Bound, Group1, Pass3dState, PassCmd, PassEnv,
};
use crate::slots::Record;
use vstd::prelude::*;

verus! {

// What a draw finds set on its pass, said of the fields of the draw and of the records of meshes.

/// The pipeline is the one that the draw asks for.
pub open spec fn suits(key: PipelineKey, d: WgrDraw3D, bones: bool) -> bool {
    let level = (d.flags & 0x300) >> 8;
    &&& key.blend == d.blend
    &&& key.depth == d.depth
    &&& key.alpha_ref == d.alpha_ref
    &&& key.skinned == bones
    &&& match key.offset {
        Offset::Shadow => d.blend == WgrBlend::Shadow,
        Offset::Decal => d.blend != WgrBlend::Shadow && d.flags & 1 != 0,
        Offset::ZBias(z) => d.blend != WgrBlend::Shadow && d.flags & 1 == 0 && z > 0 && z == level,
        Offset::Plain => d.blend != WgrBlend::Shadow && d.flags & 1 == 0 && level == 0,
    }
}

/// Some pipeline that was built is the one that the draw asks for.
pub open spec fn is_built(keys: Seq<PipelineKey>, d: WgrDraw3D, bones: bool) -> bool {
    exists|p: int| 0 <= p < keys.len() && suits(#[trigger] keys[p], d, bones)
}

/// How the handle of a mesh is read: its top word is odd.
pub open spec fn read_as(handle: u64) -> u64 {
    handle | 0x1_0000_0000
}

pub(crate) proof fn one_key_suits(key: PipelineKey, d: WgrDraw3D, bones: bool)
    ensures
        suits(key, d, bones) <==> key == PipelineKey::of_draw(&d, bones),
{
    let flags = d.flags;
    assert((flags & 0x300) >> 8u32 <= 3) by (bit_vector);
    let level = (flags & 0x300) >> 8;
    assert(level as u8 == level);
    assert(offset_of(&d) == PipelineKey::of_draw(&d, bones).offset);
}

/// A draw is drawn exactly if it shows something, its pipeline was built, and the camera, the
/// ground, and its bones or else the instances are bound; and then its own pipeline draws it.
pub proof fn a_draw_needs_what_it_reads(
    d: WgrDraw3D,
    env: PassEnv,
    keys: Seq<PipelineKey>,
    meshes: Map<u64, Record>,
)
    ensures
        can_draw(&d, env, keys, meshes) <==> {
            let bones = has_bones(d, meshes);
            &&& shows(d, meshes)
            &&& env.cameras_bound
            &&& env.ground_bound
            &&& is_built(keys, d, bones)
            &&& bones ==> env.bones_bound
            &&& !bones ==> env.instances_bound
        },
        can_draw(&d, env, keys, meshes) ==> {
            let p = pipeline_position(&d, keys, meshes);
            &&& 0 <= p < keys.len()
            &&& suits(keys[p], d, has_bones(d, meshes))
            &&& draw_skinned(&d, meshes) == has_bones(d, meshes)
        },
{
    let bones = has_bones(d, meshes);
    let key = PipelineKey::of_draw(&d, bones);
    if shows(d, meshes) {
        assert(draw_skinned(&d, meshes) == bones);
        one_key_suits(key, d, bones);
        if keys.contains(key) {
            let p = keys.index_of(key);
            assert(keys[p] == key);
        }
        if is_built(keys, d, bones) {
            let p = choose|p: int| 0 <= p < keys.len() && suits(#[trigger] keys[p], d, bones);
            one_key_suits(keys[p], d, bones);
            assert(keys[p] == key);
        }
    } else {
        assert(mesh_at(meshes, d.mesh) is None || !shows(d, meshes));
    }
}

/// When a draw comes, its pass has set whatever the draw reads: its pipeline, its camera, its
/// bones or else the instances, its texture, its sampler, the ground, and its mesh. It is drawn
/// once, last, over its own indices and slots.
pub proof fn a_draw_finds_what_it_reads(
    d: WgrDraw3D,
    base: u32,
    count: u32,
    env: PassEnv,
    keys: Seq<PipelineKey>,
    meshes: Map<u64, Record>,
    st: Pass3dState,
    b: Bound,
)
    requires
        can_draw(&d, env, keys, meshes),
        keys.len() <= usize::MAX,
        tracks(st, b, keys),
        d.index_begin + d.index_count <= u32::MAX,
        base + count <= u32::MAX,
    ensures
        ({
            let bones = has_bones(d, meshes);
            let p = pipeline_position(&d, keys, meshes) as usize;
            let cmds = draw_cmds(&d, base, count, p, draw_skinned(&d, meshes), env, st);
            let after = drawn_state(&d, p, draw_skinned(&d, meshes), env, st);
            let set = obey_all(b, cmds.drop_last(), keys);
            &&& cmds.len() > 0
            &&& cmds.last() matches PassCmd::DrawIndexed { first, end, base: from, base_end: to }
                && first == d.index_begin && end == d.index_begin + d.index_count && from == base
                && to == base + count
            &&& forall|i: int| 0 <= i < cmds.len() - 1 ==> !(#[trigger] cmds[i] is DrawIndexed)
            &&& set.pipeline matches Some(q) && q < keys.len() && suits(keys[q as int], d, bones)
            &&& set.camera == Some((d.camera * env.camera_stride) as u32)
            &&& bones ==> set.group1 == Some(
                Group1::Bones((d.palette_slot * env.palette_stride) as u32),
            ) && set.skin == Some(read_as(d.mesh))
            &&& !bones ==> set.group1 == Some(Group1::Instances)
            &&& set.texture == Some(d.texture_id)
            &&& set.sampler == Some(d.sampler.0 as usize)
            &&& set.ground
            &&& set.vertices == Some(read_as(d.mesh))
            &&& set.indices == Some(read_as(d.mesh))
            &&& tracks(after, obey_all(b, cmds, keys), keys)
        }),
{
    a_draw_needs_what_it_reads(d, env, keys, meshes);
    let p = pipeline_position(&d, keys, meshes) as usize;
    let skinned = draw_skinned(&d, meshes);
    leaving_out_known_state_is_safe(&d, base, count, p, skinned, env, st, b, keys);
    draws_once(&d, base, count, p, skinned, env, st);
}

/// One instruction, if it is needed.
spec fn if_needed(needed: bool, cmd: PassCmd) -> Seq<PassCmd> {
    crate::gfx3d::pass::when(needed, cmd)
}

proof fn one_more(cmds: Seq<PassCmd>, needed: bool, cmd: PassCmd)
    ensures
        forall|c: PassCmd|
            #![trigger (cmds + if_needed(needed, cmd)).contains(c)]
            (cmds + if_needed(needed, cmd)).contains(c) <==> cmds.contains(c) || (needed && c
                == cmd),
{
    reveal(crate::gfx3d::pass::when);
    let all = cmds + if_needed(needed, cmd);
    assert forall|c: PassCmd| #[trigger] all.contains(c) <==> cmds.contains(c) || (needed && c
        == cmd) by {
        if cmds.contains(c) {
            let i = choose|i: int| 0 <= i < cmds.len() && cmds[i] == c;
            assert(all[i] == c);
        }
        if needed && c == cmd {
            assert(all[cmds.len() as int] == c);
        }
        if all.contains(c) {
            let i = choose|i: int| 0 <= i < all.len() && all[i] == c;
            if i < cmds.len() {
                assert(cmds[i] == c);
            }
        }
    }
}

/// The instructions ahead of a draw.
spec fn ahead(
    d: &WgrDraw3D,
    p: usize,
    skinned: bool,
    env: PassEnv,
    st: Pass3dState,
) -> Seq<PassCmd> {
    draw_cmds(d, 0, 0, p, skinned, env, st).drop_last()
}

proof fn what_comes_ahead(d: &WgrDraw3D, p: usize, skinned: bool, env: PassEnv, st: Pass3dState)
    ensures
        forall|c: PassCmd| #[trigger]
            ahead(d, p, skinned, env, st).contains(c) <==> {
                let s = kept(st, skinned);
                match c {
                    PassCmd::Pipeline(q) => q == p && s.pipeline != Some(p),
                    PassCmd::Camera(o) => o == env.camera_offset(d) && s.cam_off != Some(o),
                    PassCmd::Bones(o) => skinned && o == env.palette_offset(d) && s.skinned_off
                        != Some(o),
                    PassCmd::SkinBuffer(m) => skinned && m == read_as(d.mesh),
                    PassCmd::Instances => !skinned && !s.group1_plain,
                    PassCmd::Texture(t) => t == d.texture_id && s.tex != Some(t),
                    PassCmd::Sampler(i) => i == d.sampler.0 as usize && s.sampler != Some(i),
                    PassCmd::Ground => !s.conform,
                    PassCmd::VertexBuffer(m) => m == read_as(d.mesh) && s.vbuf != Some(m),
                    PassCmd::IndexBuffer(m) => m == read_as(d.mesh) && s.ibuf != Some(m),
                    PassCmd::DrawIndexed { .. } => false,
                }
            },
{
    let s = kept(st, skinned);
    let mesh = read_as(d.mesh);
    let cam = env.camera_offset(d);
    let off = env.palette_offset(d);
    let samp = d.sampler.0 as usize;
    let c0 = Seq::<PassCmd>::empty();
    let c1 = c0 + if_needed(s.pipeline != Some(p), PassCmd::Pipeline(p));
    let c2 = c1 + if_needed(s.cam_off != Some(cam), PassCmd::Camera(cam));
    let c3 = c2 + if_needed(skinned && s.skinned_off != Some(off), PassCmd::Bones(off));
    let c4 = c3 + if_needed(skinned, PassCmd::SkinBuffer(mesh));
    let c5 = c4 + if_needed(!skinned && !s.group1_plain, PassCmd::Instances);
    let c6 = c5 + if_needed(s.tex != Some(d.texture_id), PassCmd::Texture(d.texture_id));
    let c7 = c6 + if_needed(s.sampler != Some(samp), PassCmd::Sampler(samp));
    let c8 = c7 + if_needed(!s.conform, PassCmd::Ground);
    let c9 = c8 + if_needed(s.vbuf != Some(mesh), PassCmd::VertexBuffer(mesh));
    let c10 = c9 + if_needed(s.ibuf != Some(mesh), PassCmd::IndexBuffer(mesh));
    one_more(c0, s.pipeline != Some(p), PassCmd::Pipeline(p));
    one_more(c1, s.cam_off != Some(cam), PassCmd::Camera(cam));
    one_more(c2, skinned && s.skinned_off != Some(off), PassCmd::Bones(off));
    one_more(c3, skinned, PassCmd::SkinBuffer(mesh));
    one_more(c4, !skinned && !s.group1_plain, PassCmd::Instances);
    one_more(c5, s.tex != Some(d.texture_id), PassCmd::Texture(d.texture_id));
    one_more(c6, s.sampler != Some(samp), PassCmd::Sampler(samp));
    one_more(c7, !s.conform, PassCmd::Ground);
    one_more(c8, s.vbuf != Some(mesh), PassCmd::VertexBuffer(mesh));
    one_more(c9, s.ibuf != Some(mesh), PassCmd::IndexBuffer(mesh));
    assert(ahead(d, p, skinned, env, st) =~= c10) by {
        reveal(crate::gfx3d::pass::when);
    }
    assert(forall|c: PassCmd| !c0.contains(c));
}

proof fn draws_once(
    d: &WgrDraw3D,
    base: u32,
    count: u32,
    p: usize,
    skinned: bool,
    env: PassEnv,
    st: Pass3dState,
)
    ensures
        ({
            let cmds = draw_cmds(d, base, count, p, skinned, env, st);
            &&& cmds.len() > 0
            &&& cmds.drop_last() == ahead(d, p, skinned, env, st)
            &&& cmds.last() == PassCmd::DrawIndexed {
                first: d.index_begin,
                end: (d.index_begin + d.index_count) as u32,
                base,
                base_end: (base + count) as u32,
            }
            &&& forall|i: int| 0 <= i < cmds.len() - 1 ==> !(#[trigger] cmds[i] is DrawIndexed)
        }),
{
    let cmds = draw_cmds(d, base, count, p, skinned, env, st);
    reveal(crate::gfx3d::pass::when);
    assert(cmds.drop_last() =~= ahead(d, p, skinned, env, st));
    what_comes_ahead(d, p, skinned, env, st);
    assert forall|i: int| 0 <= i < cmds.len() - 1 implies !(#[trigger] cmds[i] is DrawIndexed) by {
        assert(cmds.drop_last()[i] == cmds[i]);
        assert(ahead(d, p, skinned, env, st).contains(cmds[i]));
    }
}

/// Of two draws in a row, the second sets only what the first did not: its pipeline, its camera
/// and its mesh where they are others; and its texture, its sampler and the ground where they are
/// others, or where only one of the two moves with bones. The skin of a mesh is always set.
pub proof fn only_what_changes_is_set(
    d: WgrDraw3D,
    e: WgrDraw3D,
    base: u32,
    count: u32,
    env: PassEnv,
    keys: Seq<PipelineKey>,
    meshes: Map<u64, Record>,
    st: Pass3dState,
    c: PassCmd,
)
    requires
        can_draw(&d, env, keys, meshes),
        can_draw(&e, env, keys, meshes),
        keys.len() <= usize::MAX,
    ensures
        ({
            let p = pipeline_position(&d, keys, meshes) as usize;
            let q = pipeline_position(&e, keys, meshes) as usize;
            let after = drawn_state(&d, p, draw_skinned(&d, meshes), env, st);
            let cmds = draw_cmds(&e, base, count, q, draw_skinned(&e, meshes), env, after);
            let bones = has_bones(e, meshes);
            let turned = has_bones(d, meshes) != bones;
            let moved = (d.palette_slot * env.palette_stride) as u32 != (e.palette_slot
                * env.palette_stride) as u32;
            cmds.drop_last().contains(c) ==> match c {
                PassCmd::Pipeline(_) => !suits(keys[q as int], d, has_bones(d, meshes)),
                PassCmd::Camera(_) => (d.camera * env.camera_stride) as u32 != (e.camera
                    * env.camera_stride) as u32,
                PassCmd::Bones(_) => bones && (turned || moved),
                PassCmd::SkinBuffer(_) => bones,
                PassCmd::Instances => !bones && turned,
                PassCmd::Texture(_) => turned || d.texture_id != e.texture_id,
                PassCmd::Sampler(_) => turned || d.sampler != e.sampler,
                PassCmd::Ground => turned,
                PassCmd::VertexBuffer(_) => read_as(d.mesh) != read_as(e.mesh),
                PassCmd::IndexBuffer(_) => read_as(d.mesh) != read_as(e.mesh),
                PassCmd::DrawIndexed { .. } => false,
            }
        }),
{
    a_draw_needs_what_it_reads(d, env, keys, meshes);
    a_draw_needs_what_it_reads(e, env, keys, meshes);
    let p = pipeline_position(&d, keys, meshes) as usize;
    let q = pipeline_position(&e, keys, meshes) as usize;
    let bones = has_bones(e, meshes);
    let after = drawn_state(&d, p, draw_skinned(&d, meshes), env, st);
    draws_once(&e, base, count, q, bones, env, after);
    what_comes_ahead(&e, q, bones, env, after);
    if suits(keys[q as int], d, has_bones(d, meshes)) {
        one_key_suits(keys[q as int], d, has_bones(d, meshes));
        one_key_suits(keys[q as int], e, bones);
        assert(p == q);
    }
}

} // verus!
