use crate::ffi::{WgrDraw3D, NO_PALETTE};
use crate::gfx3d::mesh::{find_mesh, mesh_at, moves_with_bones, PipelineKey};
use crate::gfx3d::pipelines::PipelineCache;
use crate::gfx3d::plan::is_drawn;
use crate::slots::{canonical, HandleTable, Record};
use vstd::prelude::*;

verus! {

/// One instruction to a render pass that draws meshes.
#[derive(Clone, Copy, Debug, PartialEq, Eq, Structural)]
pub enum PassCmd {
    /// The pipeline at a position of the cache.
    Pipeline(usize),
    /// The camera at a byte offset.
    Camera(u32),
    /// World matrices and materials of all slots.
    Instances,
    /// The bone matrices at a byte offset, and the materials.
    Bones(u32),
    /// The bones and weights of a mesh's vertices.
    SkinBuffer(u64),
    /// The texture of a handle.
    Texture(u64),
    /// The sampler at an index.
    Sampler(usize),
    /// The ground that vegetation conforms to.
    Ground,
    /// The vertices of a mesh.
    VertexBuffer(u64),
    /// The indices of a mesh.
    IndexBuffer(u64),
    /// Draw the indices `first .. end` once for each of the slots `base .. base_end`.
    DrawIndexed { first: u32, end: u32, base: u32, base_end: u32 },
}

/// What is known to be set on a pass already. Nothing is known at the start of a pass, nor
/// after anything else was drawn in it.
#[derive(Clone, Copy, Debug, PartialEq, Eq, Structural)]
pub struct Pass3dState {
    pub pipeline: Option<usize>,
    pub last_skinned: Option<bool>,
    pub cam_off: Option<u32>,
    pub group1_plain: bool,
    pub skinned_off: Option<u32>,
    pub tex: Option<u64>,
    pub sampler: Option<usize>,
    pub conform: bool,
    pub vbuf: Option<u64>,
    pub ibuf: Option<u64>,
}

impl Pass3dState {
    /// Nothing is known.
    pub open spec fn unknown() -> Pass3dState {
        Pass3dState {
            pipeline: None,
            last_skinned: None,
            cam_off: None,
            group1_plain: false,
            skinned_off: None,
            tex: None,
            sampler: None,
            conform: false,
            vbuf: None,
            ibuf: None,
        }
    }
}

impl Default for Pass3dState {
    fn default() -> (s: Pass3dState)
        ensures
            s == Pass3dState::unknown(),
    {
        Pass3dState {
            pipeline: None,
            last_skinned: None,
            cam_off: None,
            group1_plain: false,
            skinned_off: None,
            tex: None,
            sampler: None,
            conform: false,
            vbuf: None,
            ibuf: None,
        }
    }
}

/// What a frame has ready for mesh draws.
#[derive(Clone, Copy, Debug, PartialEq, Eq, Structural)]
pub struct PassEnv {
    pub camera_stride: u64,
    pub palette_stride: u64,
    pub cameras_bound: bool,
    pub ground_bound: bool,
    pub instances_bound: bool,
    pub bones_bound: bool,
}

impl PassEnv {
    /// Entries are no further apart than 32 bits can count.
    pub open spec fn wf(self) -> bool {
        self.camera_stride <= u32::MAX && self.palette_stride <= u32::MAX
    }

    /// The byte offset of a draw's camera.
    pub open spec fn camera_offset(self, d: &WgrDraw3D) -> u32 {
        (d.camera * self.camera_stride) as u32
    }

    /// The byte offset of a draw's bone matrices.
    pub open spec fn palette_offset(self, d: &WgrDraw3D) -> u32 {
        (d.palette_slot * self.palette_stride) as u32
    }
}

/// The draw moves with bones.
pub open spec fn draw_skinned(d: &WgrDraw3D, meshes: Map<u64, Record>) -> bool {
    moves_with_bones(d.palette_slot, mesh_at(meshes, d.mesh)->0)
}

/// Everything the draw needs is there.
pub open spec fn can_draw(
    d: &WgrDraw3D,
    env: PassEnv,
    keys: Seq<PipelineKey>,
    meshes: Map<u64, Record>,
) -> bool {
    &&& is_drawn(d, meshes)
    &&& env.cameras_bound
    &&& env.ground_bound
    &&& keys.contains(PipelineKey::of_draw(d, draw_skinned(d, meshes)))
    &&& if draw_skinned(d, meshes) {
        env.bones_bound
    } else {
        env.instances_bound
    }
}

/// One instruction, if it is needed.
#[verifier::opaque]
pub open spec fn when(needed: bool, cmd: PassCmd) -> Seq<PassCmd> {
    if needed {
        seq![cmd]
    } else {
        Seq::empty()
    }
}

/// What is still known when the next draw's vertices do or do not carry bones: the change
/// unsets all but the camera.
pub open spec fn kept(st: Pass3dState, skinned: bool) -> Pass3dState {
    if st.last_skinned is Some && st.last_skinned != Some(skinned) {
        Pass3dState {
            group1_plain: false,
            skinned_off: None,
            tex: None,
            sampler: None,
            conform: false,
            ..st
        }
    } else {
        st
    }
}

/// The instructions that set what is not known to be set, and draw.
pub open spec fn draw_cmds(
    d: &WgrDraw3D,
    base: u32,
    count: u32,
    pipeline: usize,
    skinned: bool,
    env: PassEnv,
    st: Pass3dState,
) -> Seq<PassCmd> {
    let s = kept(st, skinned);
    let mesh = canonical(d.mesh);
    let cam = env.camera_offset(d);
    let off = env.palette_offset(d);
    let sampler = d.sampler.0 as usize;
    when(s.pipeline != Some(pipeline), PassCmd::Pipeline(pipeline)) + when(
        s.cam_off != Some(cam),
        PassCmd::Camera(cam),
    ) + when(skinned && s.skinned_off != Some(off), PassCmd::Bones(off)) + when(
        skinned,
        PassCmd::SkinBuffer(mesh),
    ) + when(!skinned && !s.group1_plain, PassCmd::Instances) + when(
        s.tex != Some(d.texture_id),
        PassCmd::Texture(d.texture_id),
    ) + when(s.sampler != Some(sampler), PassCmd::Sampler(sampler)) + when(
        !s.conform,
        PassCmd::Ground,
    ) + when(s.vbuf != Some(mesh), PassCmd::VertexBuffer(mesh)) + when(
        s.ibuf != Some(mesh),
        PassCmd::IndexBuffer(mesh),
    ) + when(
        true,
        PassCmd::DrawIndexed {
            first: d.index_begin,
            end: d.index_end() as u32,
            base,
            base_end: (base + count) as u32,
        },
    )
}

/// What is known after the draw.
pub open spec fn drawn_state(
    d: &WgrDraw3D,
    pipeline: usize,
    skinned: bool,
    env: PassEnv,
    st: Pass3dState,
) -> Pass3dState {
    let s = kept(st, skinned);
    Pass3dState {
        pipeline: Some(pipeline),
        last_skinned: Some(skinned),
        cam_off: Some(env.camera_offset(d)),
        group1_plain: !skinned,
        skinned_off: if skinned {
            Some(env.palette_offset(d))
        } else if s.group1_plain {
            s.skinned_off
        } else {
            None
        },
        tex: Some(d.texture_id),
        sampler: Some(d.sampler.0 as usize),
        conform: true,
        vbuf: Some(canonical(d.mesh)),
        ibuf: Some(canonical(d.mesh)),
    }
}

/// The position of the pipeline that draws `d`.
pub open spec fn pipeline_position(
    d: &WgrDraw3D,
    keys: Seq<PipelineKey>,
    meshes: Map<u64, Record>,
) -> int {
    keys.index_of(PipelineKey::of_draw(d, draw_skinned(d, meshes)))
}

/// The instructions for one draw over the slots `base .. base + count`, leaving out what is
/// known to be set. If anything that the draw needs is missing, there are none.
pub fn draw_one(
    meshes: &HandleTable,
    pipelines: &PipelineCache,
    env: &PassEnv,
    d: &WgrDraw3D,
    base: u32,
    count: u32,
    st: &mut Pass3dState,
) -> (cmds: Vec<PassCmd>)
    requires
        pipelines.wf(),
        env.wf(),
        d.index_count != 0 && mesh_at(meshes@, d.mesh) is Some ==> d.index_end() <= u32::MAX,
        can_draw(d, *env, pipelines@, meshes@) ==> base + count <= u32::MAX,
    ensures
        !can_draw(d, *env, pipelines@, meshes@) ==> cmds@.len() == 0 && *final(st) == *old(st),
        can_draw(d, *env, pipelines@, meshes@) ==> {
            let p = pipeline_position(d, pipelines@, meshes@) as usize;
            let skinned = draw_skinned(d, meshes@);
            &&& cmds@ == draw_cmds(d, base, count, p, skinned, *env, *old(st))
            &&& *final(st) == drawn_state(d, p, skinned, *env, *old(st))
        },
{
    if d.index_count == 0 {
        return Vec::new();
    }
    if !env.cameras_bound {
        return Vec::new();
    }
    if !env.ground_bound {
        return Vec::new();
    }
    let mesh = match find_mesh(meshes, d.mesh) {
        Some(m) => m,
        None => {
            return Vec::new();
        },
    };
    if d.index_begin + d.index_count > mesh.index_count {
        return Vec::new();
    }
    let skinned: bool = d.palette_slot != NO_PALETTE && mesh.skinned;
    let key = PipelineKey::from_draw(d, skinned);
    let pipeline: usize = match pipelines.find(&key) {
        Some(p) => p,
        None => {
            return Vec::new();
        },
    };
    if skinned && !env.bones_bound {
        return Vec::new();
    }
    if !skinned && !env.instances_bound {
        return Vec::new();
    }
    proof {
        pipelines.keys_are_distinct();
        let at = pipelines@.index_of(key);
        assert(pipelines@[at] == key);
        assert(at == pipeline);
    }
    issue_draw(env, d, base, count, pipeline, skinned, st)
}

fn issue_draw(
    env: &PassEnv,
    d: &WgrDraw3D,
    base: u32,
    count: u32,
    pipeline: usize,
    skinned: bool,
    st: &mut Pass3dState,
) -> (cmds: Vec<PassCmd>)
    requires
        env.wf(),
        d.index_end() <= u32::MAX,
        base + count <= u32::MAX,
    ensures
        cmds@ == draw_cmds(d, base, count, pipeline, skinned, *env, *old(st)),
        *final(st) == drawn_state(d, pipeline, skinned, *env, *old(st)),
{
    assert(d.camera * env.camera_stride <= u64::MAX) by (nonlinear_arith)
        requires
            d.camera <= u32::MAX,
            env.camera_stride <= u32::MAX,
    ;
    assert(d.palette_slot * env.palette_stride <= u64::MAX) by (nonlinear_arith)
        requires
            d.palette_slot <= u32::MAX,
            env.palette_stride <= u32::MAX,
    ;
    let mesh_id: u64 = d.mesh | 0x1_0000_0000;
    let cam_off: u32 = (d.camera as u64 * env.camera_stride) as u32;
    let off: u32 = (d.palette_slot as u64 * env.palette_stride) as u32;
    let sampler: usize = d.sampler.index();
    keep_known(st, skinned);
    let mut cmds: Vec<PassCmd> = Vec::new();
    put(&mut cmds, st.pipeline != Some(pipeline), PassCmd::Pipeline(pipeline));
    assert(cmds@ =~= when(st.pipeline != Some(pipeline), PassCmd::Pipeline(pipeline))) by {
        reveal(when);
    }
    put(&mut cmds, st.cam_off != Some(cam_off), PassCmd::Camera(cam_off));
    put(&mut cmds, skinned && st.skinned_off != Some(off), PassCmd::Bones(off));
    put(&mut cmds, skinned, PassCmd::SkinBuffer(mesh_id));
    put(&mut cmds, !skinned && !st.group1_plain, PassCmd::Instances);
    put(&mut cmds, st.tex != Some(d.texture_id), PassCmd::Texture(d.texture_id));
    put(&mut cmds, st.sampler != Some(sampler), PassCmd::Sampler(sampler));
    put(&mut cmds, !st.conform, PassCmd::Ground);
    put(&mut cmds, st.vbuf != Some(mesh_id), PassCmd::VertexBuffer(mesh_id));
    put(&mut cmds, st.ibuf != Some(mesh_id), PassCmd::IndexBuffer(mesh_id));
    put(
        &mut cmds,
        true,
        PassCmd::DrawIndexed {
            first: d.index_begin,
            end: d.index_begin + d.index_count,
            base,
            base_end: base + count,
        },
    );
    if skinned {
        st.skinned_off = Some(off);
    } else if !st.group1_plain {
        st.skinned_off = None;
    }
    st.group1_plain = !skinned;
    st.pipeline = Some(pipeline);
    st.last_skinned = Some(skinned);
    st.cam_off = Some(cam_off);
    st.tex = Some(d.texture_id);
    st.sampler = Some(sampler);
    st.conform = true;
    st.vbuf = Some(mesh_id);
    st.ibuf = Some(mesh_id);
    cmds
}

fn put(cmds: &mut Vec<PassCmd>, needed: bool, cmd: PassCmd)
    ensures
        final(cmds)@ == old(cmds)@ + when(needed, cmd),
{
    proof {
        reveal(when);
    }
    if needed {
        cmds.push(cmd);
    }
    assert(cmds@ =~= old(cmds)@ + when(needed, cmd));
}

fn keep_known(st: &mut Pass3dState, skinned: bool)
    ensures
        *final(st) == kept(*old(st), skinned),
{
    if st.last_skinned.is_some() && st.last_skinned != Some(skinned) {
        st.group1_plain = false;
        st.skinned_off = None;
        st.tex = None;
        st.sampler = None;
        st.conform = false;
    }
}

/// What fills the second bind group.
pub enum Group1 {
    Instances,
    Bones(u32),
}

/// What is set on a device's render pass.
pub ghost struct Bound {
    pub pipeline: Option<usize>,
    pub camera: Option<u32>,
    pub group1: Option<Group1>,
    pub skin: Option<u64>,
    pub texture: Option<u64>,
    pub sampler: Option<usize>,
    pub ground: bool,
    pub vertices: Option<u64>,
    pub indices: Option<u64>,
}

/// Whether the pipeline at a position draws with bones.
pub open spec fn with_bones(keys: Seq<PipelineKey>, pipeline: Option<usize>) -> Option<bool> {
    match pipeline {
        Some(p) => Some(keys[p as int].skinned),
        None => None,
    }
}

/// The pass after an instruction. Setting a pipeline whose second bind group is laid out
/// otherwise unsets that group and those behind it.
pub open spec fn obey(b: Bound, cmd: PassCmd, keys: Seq<PipelineKey>) -> Bound {
    match cmd {
        PassCmd::Pipeline(p) => if with_bones(keys, b.pipeline) == Some(keys[p as int].skinned) {
            Bound { pipeline: Some(p), ..b }
        } else {
            Bound {
                pipeline: Some(p),
                group1: None,
                texture: None,
                sampler: None,
                ground: false,
                ..b
            }
        },
        PassCmd::Camera(off) => Bound { camera: Some(off), ..b },
        PassCmd::Instances => Bound { group1: Some(Group1::Instances), ..b },
        PassCmd::Bones(off) => Bound { group1: Some(Group1::Bones(off)), ..b },
        PassCmd::SkinBuffer(m) => Bound { skin: Some(m), ..b },
        PassCmd::Texture(t) => Bound { texture: Some(t), ..b },
        PassCmd::Sampler(s) => Bound { sampler: Some(s), ..b },
        PassCmd::Ground => Bound { ground: true, ..b },
        PassCmd::VertexBuffer(m) => Bound { vertices: Some(m), ..b },
        PassCmd::IndexBuffer(m) => Bound { indices: Some(m), ..b },
        PassCmd::DrawIndexed { first, end, base, base_end } => b,
    }
}

/// The pass after all of `cmds`.
#[verifier::opaque]
pub open spec fn obey_all(b: Bound, cmds: Seq<PassCmd>, keys: Seq<PipelineKey>) -> Bound
    decreases cmds.len(),
{
    if cmds.len() == 0 {
        b
    } else {
        obey(obey_all(b, cmds.drop_last(), keys), cmds.last(), keys)
    }
}

/// What is known to be set is set.
pub open spec fn tracks(st: Pass3dState, b: Bound, keys: Seq<PipelineKey>) -> bool {
    &&& st.pipeline is Some ==> b.pipeline == st.pipeline && st.last_skinned == with_bones(
        keys,
        b.pipeline,
    )
    &&& st.pipeline is None ==> st == Pass3dState::unknown()
    &&& st.cam_off is Some ==> b.camera == st.cam_off
    &&& st.group1_plain ==> b.group1 == Some(Group1::Instances)
    &&& st.skinned_off matches Some(off) ==> b.group1 == Some(Group1::Bones(off))
    &&& st.tex is Some ==> b.texture == st.tex
    &&& st.sampler is Some ==> b.sampler == st.sampler
    &&& st.conform ==> b.ground
    &&& st.vbuf is Some ==> b.vertices == st.vbuf
    &&& st.ibuf is Some ==> b.indices == st.ibuf
}

/// Everything that the draw reads is set.
pub open spec fn shows(
    b: Bound,
    d: &WgrDraw3D,
    pipeline: usize,
    skinned: bool,
    env: PassEnv,
) -> bool {
    &&& b.pipeline == Some(pipeline)
    &&& b.camera == Some(env.camera_offset(d))
    &&& b.group1 == Some(
        if skinned {
            Group1::Bones(env.palette_offset(d))
        } else {
            Group1::Instances
        },
    )
    &&& skinned ==> b.skin == Some(canonical(d.mesh))
    &&& b.texture == Some(d.texture_id)
    &&& b.sampler == Some(d.sampler.0 as usize)
    &&& b.ground
    &&& b.vertices == Some(canonical(d.mesh))
    &&& b.indices == Some(canonical(d.mesh))
}

proof fn obey_one_more(
    b: Bound,
    cmds: Seq<PassCmd>,
    needed: bool,
    cmd: PassCmd,
    keys: Seq<PipelineKey>,
)
    ensures
        obey_all(b, cmds + when(needed, cmd), keys) == obey_if(
            obey_all(b, cmds, keys),
            needed,
            cmd,
            keys,
        ),
{
    reveal(when);
    reveal(obey_all);
    reveal(obey_if);
    if needed {
        assert((cmds + when(needed, cmd)).drop_last() =~= cmds);
    } else {
        assert(cmds + when(needed, cmd) =~= cmds);
    }
}

proof fn obey_first(b: Bound, needed: bool, cmd: PassCmd, keys: Seq<PipelineKey>)
    ensures
        obey_all(b, when(needed, cmd), keys) == obey_if(b, needed, cmd, keys),
{
    reveal(when);
    reveal(obey_all);
    obey_one_more(b, Seq::empty(), needed, cmd, keys);
    assert(Seq::empty() + when(needed, cmd) =~= when(needed, cmd));
}

proof fn obey_last(b: Bound, cmds: Seq<PassCmd>, cmd: PassCmd, keys: Seq<PipelineKey>)
    ensures
        ({
            let more = cmds + when(true, cmd);
            &&& more.len() > 0
            &&& more.last() == cmd
            &&& more.drop_last() == cmds
            &&& obey_all(b, more, keys) == obey(obey_all(b, cmds, keys), cmd, keys)
        }),
{
    reveal(when);
    reveal(obey_if);
    obey_one_more(b, cmds, true, cmd, keys);
    assert((cmds + when(true, cmd)).drop_last() =~= cmds);
}

/// What is known, but for the camera, the buffers and the pipeline, after the pipeline of the
/// next draw was set.
proof fn setting_the_pipeline(
    pipeline: usize,
    skinned: bool,
    st: Pass3dState,
    b: Bound,
    keys: Seq<PipelineKey>,
) -> (after: Bound)
    requires
        pipeline < keys.len(),
        keys[pipeline as int].skinned == skinned,
        tracks(st, b, keys),
    ensures
        ({
            let s = kept(st, skinned);
            &&& after == obey_if(
                b,
                s.pipeline != Some(pipeline),
                PassCmd::Pipeline(pipeline),
                keys,
            )
            &&& after.pipeline == Some(pipeline)
            &&& s.cam_off is Some ==> after.camera == s.cam_off
            &&& s.vbuf is Some ==> after.vertices == s.vbuf
            &&& s.ibuf is Some ==> after.indices == s.ibuf
            &&& s.group1_plain ==> after.group1 == Some(Group1::Instances)
            &&& s.skinned_off matches Some(o) ==> after.group1 == Some(Group1::Bones(o))
            &&& s.tex is Some ==> after.texture == s.tex
            &&& s.sampler is Some ==> after.sampler == s.sampler
            &&& s.conform ==> after.ground
        }),
{
    reveal(obey_if);
    let s = kept(st, skinned);
    obey_if(b, s.pipeline != Some(pipeline), PassCmd::Pipeline(pipeline), keys)
}

/// Leaving out what is known to be set changes nothing: when a draw comes, everything that it
/// reads is set, and what is known afterwards is set too.
pub proof fn leaving_out_known_state_is_safe(
    d: &WgrDraw3D,
    base: u32,
    count: u32,
    pipeline: usize,
    skinned: bool,
    env: PassEnv,
    st: Pass3dState,
    b: Bound,
    keys: Seq<PipelineKey>,
)
    requires
        pipeline < keys.len(),
        keys[pipeline as int].skinned == skinned,
        tracks(st, b, keys),
    ensures
        ({
            let cmds = draw_cmds(d, base, count, pipeline, skinned, env, st);
            let after = obey_all(b, cmds, keys);
            &&& cmds.len() > 0
            &&& cmds.last() is DrawIndexed
            &&& shows(obey_all(b, cmds.drop_last(), keys), d, pipeline, skinned, env)
            &&& shows(after, d, pipeline, skinned, env)
            &&& tracks(drawn_state(d, pipeline, skinned, env, st), after, keys)
        }),
{
    let s = kept(st, skinned);
    let mesh = canonical(d.mesh);
    let cam = env.camera_offset(d);
    let off = env.palette_offset(d);
    let samp = d.sampler.0 as usize;
    let c1 = when(s.pipeline != Some(pipeline), PassCmd::Pipeline(pipeline));
    let c2 = c1 + when(s.cam_off != Some(cam), PassCmd::Camera(cam));
    let c3 = c2 + when(skinned && s.skinned_off != Some(off), PassCmd::Bones(off));
    let c4 = c3 + when(skinned, PassCmd::SkinBuffer(mesh));
    let c5 = c4 + when(!skinned && !s.group1_plain, PassCmd::Instances);
    let c6 = c5 + when(s.tex != Some(d.texture_id), PassCmd::Texture(d.texture_id));
    let c7 = c6 + when(s.sampler != Some(samp), PassCmd::Sampler(samp));
    let c8 = c7 + when(!s.conform, PassCmd::Ground);
    let c9 = c8 + when(s.vbuf != Some(mesh), PassCmd::VertexBuffer(mesh));
    let c10 = c9 + when(s.ibuf != Some(mesh), PassCmd::IndexBuffer(mesh));
    let draw = PassCmd::DrawIndexed {
        first: d.index_begin,
        end: d.index_end() as u32,
        base,
        base_end: (base + count) as u32,
    };
    obey_first(b, s.pipeline != Some(pipeline), PassCmd::Pipeline(pipeline), keys);
    obey_one_more(b, c1, s.cam_off != Some(cam), PassCmd::Camera(cam), keys);
    obey_one_more(b, c2, skinned && s.skinned_off != Some(off), PassCmd::Bones(off), keys);
    obey_one_more(b, c3, skinned, PassCmd::SkinBuffer(mesh), keys);
    obey_one_more(b, c4, !skinned && !s.group1_plain, PassCmd::Instances, keys);
    obey_one_more(b, c5, s.tex != Some(d.texture_id), PassCmd::Texture(d.texture_id), keys);
    obey_one_more(b, c6, s.sampler != Some(samp), PassCmd::Sampler(samp), keys);
    obey_one_more(b, c7, !s.conform, PassCmd::Ground, keys);
    obey_one_more(b, c8, s.vbuf != Some(mesh), PassCmd::VertexBuffer(mesh), keys);
    obey_one_more(b, c9, s.ibuf != Some(mesh), PassCmd::IndexBuffer(mesh), keys);
    obey_last(b, c10, draw, keys);
    let done = setting_what_is_unknown(d, pipeline, skinned, env, st, b, keys);
    assert(done == obey_all(b, c10, keys));
}

/// The pass after an instruction, if it is needed.
#[verifier::opaque]
spec fn obey_if(b: Bound, needed: bool, cmd: PassCmd, keys: Seq<PipelineKey>) -> Bound {
    if needed {
        obey(b, cmd, keys)
    } else {
        b
    }
}

proof fn setting_what_is_unknown(
    d: &WgrDraw3D,
    pipeline: usize,
    skinned: bool,
    env: PassEnv,
    st: Pass3dState,
    b: Bound,
    keys: Seq<PipelineKey>,
) -> (done: Bound)
    requires
        pipeline < keys.len(),
        keys[pipeline as int].skinned == skinned,
        tracks(st, b, keys),
    ensures
        ({
            let s = kept(st, skinned);
            let mesh = canonical(d.mesh);
            let cam = env.camera_offset(d);
            let off = env.palette_offset(d);
            let samp = d.sampler.0 as usize;
            let b1 = obey_if(b, s.pipeline != Some(pipeline), PassCmd::Pipeline(pipeline), keys);
            let b2 = obey_if(b1, s.cam_off != Some(cam), PassCmd::Camera(cam), keys);
            let b3 = obey_if(
                b2,
                skinned && s.skinned_off != Some(off),
                PassCmd::Bones(off),
                keys,
            );
            let b4 = obey_if(b3, skinned, PassCmd::SkinBuffer(mesh), keys);
            let b5 = obey_if(b4, !skinned && !s.group1_plain, PassCmd::Instances, keys);
            let b6 = obey_if(
                b5,
                s.tex != Some(d.texture_id),
                PassCmd::Texture(d.texture_id),
                keys,
            );
            let b7 = obey_if(b6, s.sampler != Some(samp), PassCmd::Sampler(samp), keys);
            let b8 = obey_if(b7, !s.conform, PassCmd::Ground, keys);
            let b9 = obey_if(b8, s.vbuf != Some(mesh), PassCmd::VertexBuffer(mesh), keys);
            done == obey_if(b9, s.ibuf != Some(mesh), PassCmd::IndexBuffer(mesh), keys)
        }),
        shows(done, d, pipeline, skinned, env),
        tracks(drawn_state(d, pipeline, skinned, env, st), done, keys),
{
    reveal(obey_if);
    let s = kept(st, skinned);
    let mesh = canonical(d.mesh);
    let cam = env.camera_offset(d);
    let off = env.palette_offset(d);
    let samp = d.sampler.0 as usize;
    let b1 = setting_the_pipeline(pipeline, skinned, st, b, keys);
    let b2 = obey_if(b1, s.cam_off != Some(cam), PassCmd::Camera(cam), keys);
    assert(b2 == Bound { camera: Some(cam), ..b1 });
    let b3 = obey_if(b2, skinned && s.skinned_off != Some(off), PassCmd::Bones(off), keys);
    let b4 = obey_if(b3, skinned, PassCmd::SkinBuffer(mesh), keys);
    let b5 = obey_if(b4, !skinned && !s.group1_plain, PassCmd::Instances, keys);
    let group1 = if skinned {
        Group1::Bones(off)
    } else {
        Group1::Instances
    };
    assert(b5 == Bound { group1: Some(group1), skin: b5.skin, ..b2 });
    assert(skinned ==> b5.skin == Some(mesh));
    let b6 = obey_if(b5, s.tex != Some(d.texture_id), PassCmd::Texture(d.texture_id), keys);
    assert(b6 == Bound { texture: Some(d.texture_id), ..b5 });
    let b7 = obey_if(b6, s.sampler != Some(samp), PassCmd::Sampler(samp), keys);
    assert(b7 == Bound { sampler: Some(samp), ..b6 });
    let b8 = obey_if(b7, !s.conform, PassCmd::Ground, keys);
    assert(b8 == Bound { ground: true, ..b7 });
    let b9 = obey_if(b8, s.vbuf != Some(mesh), PassCmd::VertexBuffer(mesh), keys);
    assert(b9 == Bound { vertices: Some(mesh), ..b8 });
    let b10 = obey_if(b9, s.ibuf != Some(mesh), PassCmd::IndexBuffer(mesh), keys);
    assert(b10 == Bound { indices: Some(mesh), ..b9 });
    b10
}

/// A pass starts with nothing known, which is always right.
pub proof fn nothing_known_is_safe(b: Bound, keys: Seq<PipelineKey>)
    ensures
        tracks(Pass3dState::unknown(), b, keys),
{
}

} // verus!
