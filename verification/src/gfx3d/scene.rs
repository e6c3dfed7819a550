use crate::bits::{float_lt, lt, ONE};
use crate::buffers::{entry_stride, stride_for, Growable};
use crate::ffi::{WgrCmd, WgrDraw3D, WgrMat4, WgrShadowCaster, WgrShadowPass, NO_PALETTE};
use crate::gfx3d::mesh::{find_mesh, mesh_at, Mesh, PipelineKey};
use crate::gfx3d::pack::{
    caster_words, material_words, object_words, pack_casters, pack_materials, pack_objects,
    packed_words, CASTER_WORDS,
};
use crate::gfx3d::pass::{
    can_draw, draw_cmds, draw_one, draw_skinned, drawn_state, pipeline_position, Pass3dState,
    PassCmd, PassEnv,
};
use crate::gfx3d::pipelines::{pipeline_of, MeshPipelineDesc, PipelineCache};
use crate::gfx3d::plan::{frame_plan, is_drawn, plan_3d, sections_countable, Plan3d};
use crate::gfx3d::shadow_laws::slots_hold_casters;
use crate::gfx3d::shadows::{
    cascade_draws, casters_countable, packed_casters, plan_shadows, ShadowBucket, MAX_CASCADES,
};
use crate::math::{
    ceil_div, div_ceil_u32, larger, max_u32, min_u32, smaller, POWER_OF_TWO_LIMIT,
};
use crate::slots::{canonical, no_records, HandleTable, Record, MAX_RECORDS};
use vstd::prelude::*;

verus! {

/// Bytes of a camera's uniforms.
pub const CAMERA_SIZE: u64 = 576;

/// Bone matrices of one skinned draw.
pub const PALETTE_SIZE: usize = 128;

/// Bytes of one skinned draw's bone matrices.
pub const PALETTE_BYTES: u64 = 8192;

/// Bytes of a shadow pass's uniforms.
pub const SHADOW_PASS_SIZE: u64 = 80;

/// The most lights of a frame.
pub const MAX_LIGHTS: usize = 256;

/// The smallest storage buffer.
pub const MIN_STORAGE: u64 = 4096;

/// A depth map with one layer per cascade.
#[derive(Clone, Copy, Debug, PartialEq, Eq, Structural)]
pub struct ShadowTarget {
    pub res: u32,
    pub layers: u32,
}

/// What the frame's cameras are bound with.
#[derive(Clone, Copy, Debug, PartialEq, Eq, Structural)]
pub struct CameraGroup {
    pub stride: u64,
    pub buf: Growable,
    pub bound: bool,
    pub bound_shadow_gen: u64,
    pub bound_mask_gen: u64,
}

impl CameraGroup {
    /// Nothing is bound yet.
    pub open spec fn fresh(min_align: u32) -> CameraGroup {
        CameraGroup {
            stride: entry_stride(CAMERA_SIZE as int, min_align as int) as u64,
            buf: Growable::spec_absent(),
            bound: false,
            bound_shadow_gen: u64::MAX,
            bound_mask_gen: u64::MAX,
        }
    }

    /// The bind group has to be made anew: its buffer moved, or what was lent to it did.
    pub open spec fn stale(self, count: int, shadow_gen: u64, mask_gen: u64) -> bool {
        ||| !self.buf.fits(count * self.stride)
        ||| self.bound_shadow_gen != shadow_gen
        ||| self.bound_mask_gen != mask_gen
        ||| !self.bound
    }

    /// The group with room for `count` cameras, bound with what is lent now.
    pub open spec fn after(self, count: int, shadow_gen: u64, mask_gen: u64) -> CameraGroup {
        CameraGroup {
            buf: self.buf.after(count * self.stride, self.stride * 8),
            bound: true,
            bound_shadow_gen: shadow_gen,
            bound_mask_gen: mask_gen,
            ..self
        }
    }

    /// Nothing is bound yet.
    pub fn new(min_align: u32) -> (g: CameraGroup)
        ensures
            g == CameraGroup::fresh(min_align),
            CAMERA_SIZE <= g.stride <= u32::MAX,
            min_align > 0 ==> g.stride % (min_align as u64) == 0,
    {
        CameraGroup {
            stride: stride_for(CAMERA_SIZE, min_align),
            buf: Growable::absent(),
            bound: false,
            bound_shadow_gen: u64::MAX,
            bound_mask_gen: u64::MAX,
        }
    }

    /// Makes room for `count` cameras. Says whether the buffer, and whether the bind group, has
    /// to be made anew.
    pub fn ensure(&mut self, count: usize, shadow_gen: u64, mask_gen: u64) -> (made: (bool, bool))
        requires
            old(self).stride <= u32::MAX,
            count * old(self).stride <= POWER_OF_TWO_LIMIT,
        ensures
            made.0 == !old(self).buf.fits(count * old(self).stride),
            made.1 == old(self).stale(count as int, shadow_gen, mask_gen),
            *final(self) == old(self).after(count as int, shadow_gen, mask_gen),
    {
        let grew: bool = self.buf.ensure(count as u64 * self.stride, self.stride * 8);
        let rebind: bool = grew || self.bound_shadow_gen != shadow_gen || self.bound_mask_gen
            != mask_gen || !self.bound;
        if rebind {
            self.bound = true;
            self.bound_shadow_gen = shadow_gen;
            self.bound_mask_gen = mask_gen;
        }
        (grew, rebind)
    }
}

/// The state that mesh draws live in. The device objects it speaks of are the device's.
pub struct Gfx3d {
    pub meshes: HandleTable,
    pub pipelines: PipelineCache,
    pub cameras: CameraGroup,
    /// The generation of the ground that is bound; the stand-in's at first.
    pub ground_gen: u64,
    pub world: Growable,
    pub material: Growable,
    pub palette_stride: u64,
    pub palette: Growable,
    pub plain_bound: bool,
    pub skinned_bound: bool,
    pub depth_size: Option<(u32, u32)>,
    pub shadow_pass_stride: u64,
    pub shadow_pass: Growable,
    pub shadow_casters: Growable,
    pub shadow_casters_bound: bool,
    pub shadow_pipelines: bool,
    pub shadow_target: Option<ShadowTarget>,
    pub shadow_gen: u64,
    pub shadow_plan: Vec<Vec<ShadowBucket>>,
}

impl Gfx3d {
    /// Handles and pipelines are in order, and entries are no further apart than 32 bits count.
    pub open spec fn wf(&self) -> bool {
        &&& self.meshes.wf()
        &&& self.pipelines.wf()
        &&& self.cameras.stride <= u32::MAX
        &&& self.palette_stride <= u32::MAX
        &&& self.shadow_pass_stride <= u32::MAX
    }

    /// Nothing but the meshes changed.
    pub open spec fn same_but_meshes(&self, other: &Gfx3d) -> bool {
        &&& self.pipelines == other.pipelines
        &&& self.cameras == other.cameras
        &&& self.ground_gen == other.ground_gen
        &&& self.world == other.world
        &&& self.material == other.material
        &&& self.palette_stride == other.palette_stride
        &&& self.palette == other.palette
        &&& self.plain_bound == other.plain_bound
        &&& self.skinned_bound == other.skinned_bound
        &&& self.depth_size == other.depth_size
        &&& self.same_shadows(other)
    }

    /// Nothing about shadows changed.
    pub open spec fn same_shadows(&self, other: &Gfx3d) -> bool {
        &&& self.shadow_pass_stride == other.shadow_pass_stride
        &&& self.shadow_pass == other.shadow_pass
        &&& self.shadow_casters == other.shadow_casters
        &&& self.shadow_casters_bound == other.shadow_casters_bound
        &&& self.shadow_pipelines == other.shadow_pipelines
        &&& self.shadow_target == other.shadow_target
        &&& self.shadow_gen == other.shadow_gen
        &&& self.shadow_plan == other.shadow_plan
    }

    /// Nothing is there yet but the stand-ins.
    pub fn new(min_align: u32) -> (g: Gfx3d)
        ensures
            g.wf(),
            g.meshes@ == no_records(),
            g.pipelines@.len() == 0,
            g.cameras == CameraGroup::fresh(min_align),
            g.ground_gen == u64::MAX,
            g.world == Growable::spec_absent(),
            g.material == Growable::spec_absent(),
            g.palette == Growable::spec_absent(),
            g.palette_stride == entry_stride(PALETTE_BYTES as int, min_align as int),
            !g.plain_bound,
            !g.skinned_bound,
            g.depth_size is None,
            g.shadow_pass_stride == entry_stride(SHADOW_PASS_SIZE as int, min_align as int),
            CAMERA_SIZE <= g.cameras.stride,
            PALETTE_BYTES <= g.palette_stride,
            SHADOW_PASS_SIZE <= g.shadow_pass_stride,
            min_align > 0 ==> g.cameras.stride % (min_align as u64) == 0,
            min_align > 0 ==> g.palette_stride % (min_align as u64) == 0,
            min_align > 0 ==> g.shadow_pass_stride % (min_align as u64) == 0,
            g.shadow_pass == Growable::spec_absent(),
            g.shadow_casters == Growable::spec_absent(),
            !g.shadow_casters_bound,
            !g.shadow_pipelines,
            g.shadow_target is None,
            g.shadow_gen == 0,
            g.shadow_plan@.len() == 0,
    {
        Gfx3d {
            meshes: HandleTable::new(),
            pipelines: PipelineCache::new(),
            cameras: CameraGroup::new(min_align),
            ground_gen: u64::MAX,
            world: Growable::absent(),
            material: Growable::absent(),
            palette_stride: stride_for(PALETTE_BYTES, min_align),
            palette: Growable::absent(),
            plain_bound: false,
            skinned_bound: false,
            depth_size: None,
            shadow_pass_stride: stride_for(SHADOW_PASS_SIZE, min_align),
            shadow_pass: Growable::absent(),
            shadow_casters: Growable::absent(),
            shadow_casters_bound: false,
            shadow_pipelines: false,
            shadow_target: None,
            shadow_gen: 0,
            shadow_plan: Vec::new(),
        }
    }

    /// Makes a mesh of that many vertices and indices; none, and the zero handle, if it has no
    /// vertices or no indices.
    pub fn mesh_create(&mut self, vert_count: usize, index_count: usize) -> (handle: u64)
        requires
            old(self).wf(),
            old(self).meshes@.len() < MAX_RECORDS,
        ensures
            final(self).wf(),
            final(self).same_but_meshes(old(self)),
            handle != 0 <==> vert_count != 0 && index_count != 0,
            handle == 0 ==> final(self).meshes@ == old(self).meshes@,
            handle != 0 ==> {
                &&& !old(self).meshes@.dom().contains(handle)
                &&& canonical(handle) == handle
                &&& final(self).meshes@ == old(self).meshes@.insert(
                    handle,
                    (index_count as u32, vert_count as u32, 0u32),
                )
            },
    {
        if vert_count == 0 || index_count == 0 {
            return 0;
        }
        self.meshes.insert((index_count as u32, vert_count as u32, 0))
    }

    /// Attaches four bones and four weights to every vertex of a mesh. Gives the bytes to be
    /// uploaded; none if the mesh is not live or there are too few bones or weights.
    pub fn mesh_set_skin(&mut self, handle: u64, bones: &[u8], weights: &[u8]) -> (data: Option<
        Vec<u8>,
    >)
        requires
            old(self).wf(),
        ensures
            final(self).wf(),
            final(self).same_but_meshes(old(self)),
            data is Some <==> (mesh_at(old(self).meshes@, handle) matches Some(m) && bones@.len()
                >= 4 * m.vert_count && weights@.len() >= 4 * m.vert_count),
            data is None ==> final(self).meshes@ == old(self).meshes@,
            data matches Some(bytes) ==> {
                let m = mesh_at(old(self).meshes@, handle)->0;
                &&& bytes@ == interleaved(bones@, weights@, m.vert_count as nat)
                &&& final(self).meshes@ == old(self).meshes@.insert(
                    canonical(handle),
                    (m.index_count, m.vert_count, 1u32),
                )
            },
    {
        let mesh = match find_mesh(&self.meshes, handle) {
            Some(m) => m,
            None => {
                return None;
            },
        };
        let needed: u64 = mesh.vert_count as u64 * 4;
        if (bones.len() as u64) < needed || (weights.len() as u64) < needed {
            return None;
        }
        let data: Vec<u8> = interleave_skin(bones, weights, mesh.vert_count);
        self.meshes.set(handle, (mesh.index_count, mesh.vert_count, 1));
        Some(data)
    }

    /// Whether new vertices are written over a mesh's: it is live, and there are some, and no
    /// more than it has.
    pub fn mesh_update(&self, handle: u64, vert_count: usize) -> (write: bool)
        ensures
            write == (mesh_at(self.meshes@, handle) matches Some(m) && vert_count != 0 && (
            vert_count as u32) <= m.vert_count),
    {
        match find_mesh(&self.meshes, handle) {
            Some(m) => vert_count != 0 && (vert_count as u32) <= m.vert_count,
            None => false,
        }
    }

    /// The handle by which a live mesh is known, for any handle that stands for it; zero if none
    /// does.
    pub fn mesh_handle(&self, handle: u64) -> (h: u64)
        ensures
            h == if mesh_at(self.meshes@, handle) is Some {
                canonical(handle)
            } else {
                0
            },
    {
        if find_mesh(&self.meshes, handle).is_some() {
            handle | 0x1_0000_0000
        } else {
            0
        }
    }

    /// Forgets a mesh.
    pub fn mesh_destroy(&mut self, handle: u64)
        requires
            old(self).wf(),
        ensures
            final(self).wf(),
            final(self).same_but_meshes(old(self)),
            final(self).meshes@ == if handle == 0 {
                old(self).meshes@
            } else {
                old(self).meshes@.remove(canonical(handle))
            },
    {
        if handle != 0 {
            self.meshes.remove(handle);
        }
    }

    /// Fits the depth target to the surface; gives its size if it has to be made anew.
    pub fn ensure_depth(&mut self, width: u32, height: u32) -> (made: Option<(u32, u32)>)
        requires
            old(self).wf(),
        ensures
            final(self).wf(),
            final(self).meshes == old(self).meshes,
            final(self).same_but_meshes(
                &(Gfx3d { depth_size: final(self).depth_size, ..*old(self) }),
            ),
            ({
                let size = (larger(width as int, 1) as u32, larger(height as int, 1) as u32);
                &&& final(self).depth_size == Some(size)
                &&& made == if old(self).depth_size == Some(size) {
                    None
                } else {
                    Some(size)
                }
            }),
    {
        let size: (u32, u32) = (max_u32(width, 1), max_u32(height, 1));
        if let Some(s) = self.depth_size {
            if s.0 == size.0 && s.1 == size.1 {
                return None;
            }
        }
        self.depth_size = Some(size);
        Some(size)
    }

    /// The bytes between two cameras.
    pub fn camera_stride(&self) -> (s: u64)
        ensures
            s == self.cameras.stride,
    {
        self.cameras.stride
    }
}

/// What has to be made and uploaded for a frame's shadows.
pub struct ShadowUpload {
    /// The depth map, if it has to be made anew.
    pub target: Option<ShadowTarget>,
    /// The depth pipelines have to be built.
    pub build_pipelines: bool,
    /// How many cascades' uniforms are written, and whether their buffer has to be made anew.
    pub cascades: u32,
    pub pass_grew: bool,
    /// The casters' words, and whether their buffer and their bind group have to be made anew.
    pub words: Vec<u32>,
    pub casters_grew: bool,
    pub casters_rebind: bool,
}

/// The frame has shadows to draw.
pub open spec fn has_shadows(pass: &WgrShadowPass, casters: Seq<WgrShadowCaster>) -> bool {
    pass.count != 0 && casters.len() > 0 && pass.resolution != 0
}

/// How many cascades the frame has.
pub open spec fn cascade_count(pass: &WgrShadowPass) -> int {
    smaller(pass.count as int, MAX_CASCADES as int)
}

/// One instanced draw into a cascade's depth map.
#[derive(Clone, Copy, Debug, PartialEq, Eq, Structural)]
pub struct ShadowDraw {
    /// Which of the four depth pipelines.
    pub skinned: bool,
    pub cutout: bool,
    /// The bone matrices' byte offset, for a skinned draw.
    pub palette_offset: u32,
    /// The texture's handle; zero, white, where nothing is cut out.
    pub texture: u64,
    pub sampler: usize,
    pub mesh: u64,
    pub first: u32,
    pub end: u32,
    pub base: u32,
    pub base_end: u32,
}

/// The caster's mesh and palette make it move with bones.
pub open spec fn caster_skinned(caster: &WgrShadowCaster, m: Mesh) -> bool {
    caster.palette_slot != NO_PALETTE && m.skinned
}

/// The draw of a bucket, unless its mesh is gone, or its bone matrices are not bound.
pub open spec fn shadow_draw(
    bucket: ShadowBucket,
    caster: &WgrShadowCaster,
    meshes: Map<u64, Record>,
    palette_bound: bool,
    palette_stride: u64,
) -> Option<ShadowDraw> {
    match mesh_at(meshes, caster.mesh) {
        None => None,
        Some(m) => if caster_skinned(caster, m) && !palette_bound {
            None
        } else {
            let cutout = float_lt(0, caster.alpha_ref);
            Some(
                ShadowDraw {
                    skinned: caster_skinned(caster, m),
                    cutout,
                    palette_offset: if caster_skinned(caster, m) {
                        (caster.palette_slot * palette_stride) as u32
                    } else {
                        0
                    },
                    texture: if cutout {
                        caster.texture_id
                    } else {
                        0
                    },
                    sampler: caster.sampler.0 as usize,
                    mesh: canonical(caster.mesh),
                    first: caster.index_begin,
                    end: caster.index_end() as u32,
                    base: bucket.base,
                    base_end: (bucket.base + bucket.count) as u32,
                },
            )
        },
    }
}

/// The draws of a cascade's buckets, in order.
pub open spec fn shadow_draws(
    buckets: Seq<ShadowBucket>,
    casters: Seq<WgrShadowCaster>,
    meshes: Map<u64, Record>,
    palette_bound: bool,
    palette_stride: u64,
) -> Seq<ShadowDraw>
    decreases buckets.len(),
{
    if buckets.len() == 0 {
        Seq::empty()
    } else {
        let before = shadow_draws(
            buckets.drop_last(),
            casters,
            meshes,
            palette_bound,
            palette_stride,
        );
        let bucket = buckets.last();
        match shadow_draw(
            bucket,
            &casters[bucket.repr as int],
            meshes,
            palette_bound,
            palette_stride,
        ) {
            Some(d) => before.push(d),
            None => before,
        }
    }
}

impl Gfx3d {
    /// Plans the frame's shadows and says what has to be made and uploaded; nothing, if there
    /// are none, and the plan stays as it was.
    pub fn prepare_shadows(&mut self, pass: &WgrShadowPass, casters: &[WgrShadowCaster]) -> (up:
        Option<ShadowUpload>)
        requires
            old(self).wf(),
            old(self).shadow_gen < u64::MAX,
            has_shadows(pass, casters@) ==> casters_countable(
                casters@,
                cascade_count(pass) as u32,
                old(self).meshes@,
            ) && cascade_count(pass) * casters@.len() <= u32::MAX,
        ensures
            final(self).wf(),
            final(self).meshes == old(self).meshes,
            final(self).pipelines == old(self).pipelines,
            final(self).cameras == old(self).cameras,
            final(self).ground_gen == old(self).ground_gen,
            final(self).world == old(self).world,
            final(self).material == old(self).material,
            final(self).palette_stride == old(self).palette_stride,
            final(self).palette == old(self).palette,
            final(self).plain_bound == old(self).plain_bound,
            final(self).skinned_bound == old(self).skinned_bound,
            final(self).depth_size == old(self).depth_size,
            up is Some <==> has_shadows(pass, casters@),
            up is None ==> final(self).same_shadows(old(self)),
            up matches Some(u) ==> {
                let count = cascade_count(pass);
                let target = ShadowTarget { res: pass.resolution, layers: count as u32 };
                let moved = old(self).shadow_target != Some(target);
                let packed = packed_casters(casters@, count as nat, old(self).meshes@);
                let pass_bytes = count * old(self).shadow_pass_stride;
                let bytes = packed.len() * 96;
                &&& final(self).shadow_target == Some(target)
                &&& u.target == if moved {
                    Some(target)
                } else {
                    None
                }
                &&& final(self).shadow_gen == old(self).shadow_gen + if moved {
                    1int
                } else {
                    0
                }
                &&& final(self).shadow_pipelines
                &&& u.build_pipelines == !old(self).shadow_pipelines
                &&& u.cascades == count
                &&& u.pass_grew == !old(self).shadow_pass.fits(pass_bytes)
                &&& final(self).shadow_pass_stride == old(self).shadow_pass_stride
                &&& final(self).shadow_pass == old(self).shadow_pass.after(
                    pass_bytes,
                    old(self).shadow_pass_stride * 64,
                )
                &&& final(self).shadow_plan@.len() == count
                &&& forall|c: int|
                    0 <= c < count ==> (#[trigger] final(self).shadow_plan@[c])@ == cascade_draws(
                        casters@,
                        c as nat,
                        old(self).meshes@,
                    )
                &&& u.words@ == packed_words(
                    casters@,
                    packed,
                    |c: WgrShadowCaster| caster_words(&c),
                )
                &&& u.casters_grew == !old(self).shadow_casters.fits(bytes as int)
                &&& final(self).shadow_casters == old(self).shadow_casters.after(
                    bytes as int,
                    MIN_STORAGE as int,
                )
                &&& u.casters_rebind == (u.casters_grew || !old(self).shadow_casters_bound)
                &&& final(self).shadow_casters_bound
            },
    {
        let count: u32 = min_u32(pass.count, MAX_CASCADES);
        if count == 0 || casters.len() == 0 || pass.resolution == 0 {
            return None;
        }
        let target: Option<ShadowTarget> = self.ensure_shadow_target(pass.resolution, count);
        let build_pipelines: bool = !self.shadow_pipelines;
        self.shadow_pipelines = true;
        assert(count * self.shadow_pass_stride <= 4 * 0xffff_ffff) by (nonlinear_arith)
            requires
                count <= 4,
                self.shadow_pass_stride <= 0xffff_ffff,
        ;
        let pass_grew: bool = self.shadow_pass.ensure(
            count as u64 * self.shadow_pass_stride,
            self.shadow_pass_stride * 64,
        );
        let plan = plan_shadows(&self.meshes, casters, count);
        proof {
            slots_hold_casters(casters@, count as nat, self.meshes@);
        }
        let words: Vec<u32> = pack_casters(casters, plan.packed.as_slice());
        let bytes: u64 = plan.packed.len() as u64 * 96;
        let casters_grew: bool = self.shadow_casters.ensure(bytes, MIN_STORAGE);
        let casters_rebind: bool = casters_grew || !self.shadow_casters_bound;
        self.shadow_casters_bound = true;
        self.shadow_plan = plan.cascades;
        Some(
            ShadowUpload {
                target,
                build_pipelines,
                cascades: count,
                pass_grew,
                words,
                casters_grew,
                casters_rebind,
            },
        )
    }

    fn ensure_shadow_target(&mut self, res: u32, layers: u32) -> (made: Option<ShadowTarget>)
        requires
            old(self).shadow_gen < u64::MAX,
        ensures
            ({
                let target = ShadowTarget { res, layers };
                let moved = old(self).shadow_target != Some(target);
                &&& made == if moved {
                    Some(target)
                } else {
                    None
                }
                &&& *final(self) == (Gfx3d {
                    shadow_target: Some(target),
                    shadow_gen: if moved {
                        (old(self).shadow_gen + 1) as u64
                    } else {
                        old(self).shadow_gen
                    },
                    ..*old(self)
                })
            }),
    {
        if let Some(t) = self.shadow_target {
            if t.res == res && t.layers == layers {
                return None;
            }
        }
        let target = ShadowTarget { res, layers };
        self.shadow_target = Some(target);
        self.shadow_gen = self.shadow_gen + 1;
        Some(target)
    }

    /// Everything that shadow passes bind is there.
    pub open spec fn shadows_ready(&self) -> bool {
        &&& self.shadow_target is Some
        &&& self.shadow_pipelines
        &&& self.shadow_pass.exists
        &&& self.shadow_casters_bound
    }

    /// How many cascades are drawn: those of the frame that the depth map and the plan have.
    pub open spec fn cascades_drawn(&self, pass: &WgrShadowPass) -> int {
        smaller(
            smaller(cascade_count(pass), self.shadow_target->0.layers as int),
            self.shadow_plan@.len() as int,
        )
    }

    /// The draws of each cascade's depth pass; none without casters or before anything was
    /// prepared.
    pub fn render_shadow_passes(&self, pass: &WgrShadowPass, casters: &[WgrShadowCaster]) -> (draws:
        Vec<Vec<ShadowDraw>>)
        requires
            self.wf(),
            forall|c: int, i: int|
                0 <= c < self.shadow_plan@.len() && 0 <= i < self.shadow_plan@[c]@.len() ==> {
                    let bucket = #[trigger] self.shadow_plan@[c]@[i];
                    &&& bucket.repr < casters@.len()
                    &&& casters@[bucket.repr as int].index_end() <= u32::MAX
                    &&& bucket.base + bucket.count <= u32::MAX
                },
        ensures
            pass.count == 0 || casters@.len() == 0 || !self.shadows_ready() ==> draws@.len() == 0,
            pass.count != 0 && casters@.len() > 0 && self.shadows_ready() ==> {
                &&& draws@.len() == self.cascades_drawn(pass)
                &&& forall|c: int|
                    0 <= c < draws@.len() ==> (#[trigger] draws@[c])@ == shadow_draws(
                        self.shadow_plan@[c]@,
                        casters@,
                        self.meshes@,
                        self.palette.exists,
                        self.palette_stride,
                    )
            },
    {
        let mut draws: Vec<Vec<ShadowDraw>> = Vec::new();
        let count: u32 = min_u32(pass.count, MAX_CASCADES);
        if count == 0 || casters.len() == 0 {
            return draws;
        }
        let layers: u32 = match self.shadow_target {
            Some(t) => t.layers,
            None => {
                return draws;
            },
        };
        if !self.shadow_pipelines || !self.shadow_pass.exists || !self.shadow_casters_bound {
            return draws;
        }
        let drawn: u32 = min_u32(count, layers);
        let mut c: u32 = 0;
        while c < drawn && (c as usize) < self.shadow_plan.len()
            invariant
                self.wf(),
                c <= drawn <= 4,
                c <= self.shadow_plan@.len(),
                draws@.len() == c,
                forall|c: int, i: int|
                    0 <= c < self.shadow_plan@.len() && 0 <= i < self.shadow_plan@[c]@.len() ==> {
                        let bucket = #[trigger] self.shadow_plan@[c]@[i];
                        &&& bucket.repr < casters@.len()
                        &&& casters@[bucket.repr as int].index_end() <= u32::MAX
                        &&& bucket.base + bucket.count <= u32::MAX
                    },
                forall|k: int|
                    0 <= k < c ==> (#[trigger] draws@[k])@ == shadow_draws(
                        self.shadow_plan@[k]@,
                        casters@,
                        self.meshes@,
                        self.palette.exists,
                        self.palette_stride,
                    ),
            decreases drawn - c,
        {
            draws.push(self.cascade_pass(c as usize, casters));
            c = c + 1;
        }
        draws
    }

    fn cascade_pass(&self, c: usize, casters: &[WgrShadowCaster]) -> (out: Vec<ShadowDraw>)
        requires
            self.wf(),
            c < self.shadow_plan@.len(),
            forall|c: int, i: int|
                0 <= c < self.shadow_plan@.len() && 0 <= i < self.shadow_plan@[c]@.len() ==> {
                    let bucket = #[trigger] self.shadow_plan@[c]@[i];
                    &&& bucket.repr < casters@.len()
                    &&& casters@[bucket.repr as int].index_end() <= u32::MAX
                    &&& bucket.base + bucket.count <= u32::MAX
                },
        ensures
            out@ == shadow_draws(
                self.shadow_plan@[c as int]@,
                casters@,
                self.meshes@,
                self.palette.exists,
                self.palette_stride,
            ),
    {
        let buckets: &Vec<ShadowBucket> = &self.shadow_plan[c];
        let mut out: Vec<ShadowDraw> = Vec::new();
        let mut i: usize = 0;
        assert(buckets@.take(0) =~= Seq::empty());
        assert(out@ =~= Seq::empty());
        while i < buckets.len()
            invariant
                self.wf(),
                c < self.shadow_plan@.len(),
                buckets@ == self.shadow_plan@[c as int]@,
                i <= buckets@.len(),
                forall|c: int, i: int|
                    0 <= c < self.shadow_plan@.len() && 0 <= i < self.shadow_plan@[c]@.len() ==> {
                        let bucket = #[trigger] self.shadow_plan@[c]@[i];
                        &&& bucket.repr < casters@.len()
                        &&& casters@[bucket.repr as int].index_end() <= u32::MAX
                        &&& bucket.base + bucket.count <= u32::MAX
                    },
                out@ == shadow_draws(
                    buckets@.take(i as int),
                    casters@,
                    self.meshes@,
                    self.palette.exists,
                    self.palette_stride,
                ),
            decreases buckets@.len() - i,
        {
            let bucket: ShadowBucket = buckets[i];
            assert(self.shadow_plan@[c as int]@[i as int] == bucket);
            let caster: &WgrShadowCaster = &casters[bucket.repr as usize];
            proof {
                assert(buckets@.take(i + 1).drop_last() =~= buckets@.take(i as int));
            }
            i = i + 1;
            if let Some(m) = find_mesh(&self.meshes, caster.mesh) {
                let skinned: bool = caster.palette_slot != NO_PALETTE && m.skinned;
                if skinned && !self.palette.exists {
                    continue ;
                }
                let cutout: bool = lt(0, caster.alpha_ref);
                assert(caster.palette_slot * self.palette_stride <= u64::MAX) by (nonlinear_arith)
                    requires
                        caster.palette_slot <= u32::MAX,
                        self.palette_stride <= u32::MAX,
                ;
                out.push(
                    ShadowDraw {
                        skinned,
                        cutout,
                        palette_offset: if skinned {
                            (caster.palette_slot as u64 * self.palette_stride) as u32
                        } else {
                            0
                        },
                        texture: if cutout {
                            caster.texture_id
                        } else {
                            0
                        },
                        sampler: caster.sampler.index(),
                        mesh: caster.mesh | 0x1_0000_0000,
                        first: caster.index_begin,
                        end: caster.index_begin + caster.index_count,
                        base: bucket.base,
                        base_end: bucket.base + bucket.count,
                    },
                );
            }
        }
        assert(buckets@.take(i as int) =~= buckets@);
        out
    }

    /// The resolution to be read back from a layer of the depth map into room for `out_len`
    /// values; zero if there is no such layer or not enough room.
    pub fn shadow_map_read(&self, layer: u32, out_len: usize) -> (res: u32)
        requires
            self.shadow_target matches Some(t) ==> (layer < t.layers ==> t.res * t.res <= u32::MAX),
        ensures
            res == match self.shadow_target {
                Some(t) => if layer < t.layers && out_len >= t.res * t.res {
                    t.res
                } else {
                    0
                },
                None => 0,
            },
    {
        match self.shadow_target {
            None => 0,
            Some(t) => {
                let (res, layers): (u32, u32) = (t.res, t.layers);
                if layer >= layers || out_len < (res * res) as usize {
                    0
                } else {
                    res
                }
            },
        }
    }
}

/// The pipeline that draws `d` moves vertices with bones.
pub open spec fn wants_bones(d: &WgrDraw3D, meshes: Map<u64, Record>) -> bool {
    d.palette_slot != NO_PALETTE && (mesh_at(meshes, d.mesh) matches Some(m) && m.skinned)
}

/// The pipelines after those of the first `n` draws were added, each once.
pub open spec fn keys_with(
    keys: Seq<PipelineKey>,
    draws: Seq<WgrDraw3D>,
    n: nat,
    meshes: Map<u64, Record>,
) -> Seq<PipelineKey>
    decreases n,
{
    if n == 0 {
        keys
    } else {
        let before = keys_with(keys, draws, (n - 1) as nat, meshes);
        let key = PipelineKey::of_draw(&draws[n - 1], wants_bones(&draws[n - 1], meshes));
        if before.contains(key) {
            before
        } else {
            before.push(key)
        }
    }
}

/// What a frame's draws and cameras ask for.
#[derive(Clone, Copy, Debug, PartialEq, Eq, Structural)]
pub struct FrameInputs {
    pub cameras: usize,
    pub lights: usize,
    /// Bone matrices, in blocks of `PALETTE_SIZE`.
    pub palette_len: usize,
    /// Generations of what is lent: the sun-shadow mask and the ground.
    pub mask_gen: u64,
    pub ground_gen: u64,
}

/// What has to be made and uploaded before a frame's meshes are drawn.
pub struct FrameUpload {
    pub ground_rebind: bool,
    /// How many lights are written.
    pub lights: usize,
    pub cameras_grew: bool,
    pub cameras_rebind: bool,
    /// Places and materials in slot order, and whether their buffers have to be made anew.
    pub objects: Vec<u32>,
    pub world_grew: bool,
    pub materials: Vec<u32>,
    pub material_grew: bool,
    /// How many blocks of bone matrices are written, block `s` at `s` strides.
    pub palette_slots: usize,
    pub palette_grew: bool,
    pub plain_rebind: bool,
    pub skinned_rebind: bool,
    /// The pipelines to be built, in the order of their positions.
    pub pipelines: Vec<MeshPipelineDesc>,
}

/// How many lights are written.
fn lit(lights: usize) -> (n: usize)
    ensures
        n == smaller(lights as int, MAX_LIGHTS as int),
{
    if lights <= MAX_LIGHTS {
        lights
    } else {
        MAX_LIGHTS
    }
}

/// Makes room for `n` entries of `stride` bytes, if there are any.
fn grow_for(buf: &mut Growable, n: u64, stride: u64, least: u64) -> (grew: bool)
    requires
        n * stride <= POWER_OF_TWO_LIMIT,
    ensures
        *final(buf) == if n > 0 {
            old(buf).after(n * stride, least as int)
        } else {
            *old(buf)
        },
        grew == (n > 0 && !old(buf).fits(n * stride)),
{
    if n > 0 {
        buf.ensure(n * stride, least)
    } else {
        false
    }
}

impl Gfx3d {
    /// The buffers that a frame asks for can be counted.
    pub open spec fn countable(&self, inputs: FrameInputs, slots: nat) -> bool {
        &&& inputs.cameras * self.cameras.stride <= POWER_OF_TWO_LIMIT
        &&& slots * 112 <= POWER_OF_TWO_LIMIT
        &&& (inputs.palette_len / PALETTE_SIZE) * self.palette_stride <= POWER_OF_TWO_LIMIT
    }

    /// The state after a frame was prepared.
    pub open spec fn prepared(
        &self,
        inputs: FrameInputs,
        slots: nat,
        keys: Seq<PipelineKey>,
        after: &Gfx3d,
    ) -> bool {
        let blocks = inputs.palette_len / PALETTE_SIZE;
        &&& after.meshes == self.meshes
        &&& after.pipelines@ == keys
        &&& after.ground_gen == inputs.ground_gen
        &&& after.cameras == if inputs.cameras > 0 {
            self.cameras.after(inputs.cameras as int, self.shadow_gen, inputs.mask_gen)
        } else {
            self.cameras
        }
        &&& after.world == if slots > 0 {
            self.world.after((slots * 112) as int, MIN_STORAGE as int)
        } else {
            self.world
        }
        &&& after.material == if slots > 0 {
            self.material.after((slots * 96) as int, MIN_STORAGE as int)
        } else {
            self.material
        }
        &&& after.palette_stride == self.palette_stride
        &&& after.palette == if blocks > 0 {
            self.palette.after(blocks * self.palette_stride, self.palette_stride * 64)
        } else {
            self.palette
        }
        &&& after.plain_bound == (self.plain_bound || (after.world.exists && after.material.exists))
        &&& after.skinned_bound == (self.skinned_bound || (after.palette.exists
            && after.material.exists))
        &&& after.depth_size == self.depth_size
        &&& after.same_shadows(self)
    }

    /// Packs a frame's draws in the plan's order, makes room for everything, and names the
    /// pipelines that are still to be built.
    pub fn prepare(&mut self, draws: &[WgrDraw3D], order: &[u32], inputs: FrameInputs) -> (up:
        FrameUpload)
        requires
            old(self).wf(),
            old(self).countable(inputs, order@.len()),
            forall|s: int| 0 <= s < order@.len() ==> #[trigger] order@[s] < draws@.len(),
        ensures
            final(self).wf(),
            ({
                let keys = keys_with(
                    old(self).pipelines@,
                    draws@,
                    draws@.len(),
                    old(self).meshes@,
                );
                &&& old(self).prepared(inputs, order@.len(), keys, final(self))
                &&& up.pipelines@.len() == keys.len() - old(self).pipelines@.len()
                &&& forall|i: int|
                    0 <= i < up.pipelines@.len() ==> #[trigger] up.pipelines@[i] == pipeline_of(
                        keys[old(self).pipelines@.len() + i],
                    )
            }),
            up.ground_rebind == (old(self).ground_gen != inputs.ground_gen),
            up.lights == smaller(inputs.lights as int, MAX_LIGHTS as int),
            up.cameras_grew == (inputs.cameras > 0 && !old(self).cameras.buf.fits(
                inputs.cameras * old(self).cameras.stride,
            )),
            up.cameras_rebind == (inputs.cameras > 0 && old(self).cameras.stale(
                inputs.cameras as int,
                old(self).shadow_gen,
                inputs.mask_gen,
            )),
            up.objects@ == packed_words(draws@, order@, |d: WgrDraw3D| object_words(&d)),
            up.materials@ == packed_words(draws@, order@, |d: WgrDraw3D| material_words(&d)),
            up.world_grew == (order@.len() > 0 && !old(self).world.fits(
                (order@.len() * 112) as int,
            )),
            up.material_grew == (order@.len() > 0 && !old(self).material.fits(
                (order@.len() * 96) as int,
            )),
            up.palette_slots == inputs.palette_len / PALETTE_SIZE,
            up.palette_grew == (up.palette_slots > 0 && !old(self).palette.fits(
                up.palette_slots * old(self).palette_stride,
            )),
            up.plain_rebind == (final(self).world.exists && final(self).material.exists && (
            up.world_grew || up.material_grew || !old(self).plain_bound)),
            up.skinned_rebind == (final(self).palette.exists && final(self).material.exists && (
            up.palette_grew || up.material_grew || !old(self).skinned_bound)),
    {
        let ground_rebind: bool = self.ground_gen != inputs.ground_gen;
        self.ground_gen = inputs.ground_gen;
        let lights: usize = lit(inputs.lights);
        let cameras_made: (bool, bool) = self.grow_cameras(&inputs);
        let objects: Vec<u32> = pack_objects(draws, order);
        let materials: Vec<u32> = pack_materials(draws, order);
        let n: u64 = order.len() as u64;
        let world_grew: bool = grow_for(&mut self.world, n, 112, MIN_STORAGE);
        let material_grew: bool = grow_for(&mut self.material, n, 96, MIN_STORAGE);
        let palette_slots: usize = inputs.palette_len / PALETTE_SIZE;
        let palette_grew: bool = grow_for(
            &mut self.palette,
            palette_slots as u64,
            self.palette_stride,
            self.palette_stride * 64,
        );
        let plain_rebind: bool = self.world.exists && self.material.exists && (world_grew
            || material_grew || !self.plain_bound);
        self.plain_bound = self.plain_bound || plain_rebind;
        let skinned_rebind: bool = self.palette.exists && self.material.exists && (palette_grew
            || material_grew || !self.skinned_bound);
        self.skinned_bound = self.skinned_bound || skinned_rebind;
        let pipelines: Vec<MeshPipelineDesc> = self.build_pipelines(draws);
        FrameUpload {
            ground_rebind,
            lights,
            cameras_grew: cameras_made.0,
            cameras_rebind: cameras_made.1,
            objects,
            world_grew,
            materials,
            material_grew,
            palette_slots,
            palette_grew,
            plain_rebind,
            skinned_rebind,
            pipelines,
        }
    }

    fn grow_cameras(&mut self, inputs: &FrameInputs) -> (made: (bool, bool))
        requires
            old(self).wf(),
            inputs.cameras * old(self).cameras.stride <= POWER_OF_TWO_LIMIT,
        ensures
            final(self).wf(),
            *final(self) == (Gfx3d { cameras: final(self).cameras, ..*old(self) }),
            final(self).cameras == if inputs.cameras > 0 {
                old(self).cameras.after(
                    inputs.cameras as int,
                    old(self).shadow_gen,
                    inputs.mask_gen,
                )
            } else {
                old(self).cameras
            },
            made.0 == (inputs.cameras > 0 && !old(self).cameras.buf.fits(
                inputs.cameras * old(self).cameras.stride,
            )),
            made.1 == (inputs.cameras > 0 && old(self).cameras.stale(
                inputs.cameras as int,
                old(self).shadow_gen,
                inputs.mask_gen,
            )),
    {
        if inputs.cameras > 0 {
            self.cameras.ensure(inputs.cameras, self.shadow_gen, inputs.mask_gen)
        } else {
            (false, false)
        }
    }

    fn build_pipelines(&mut self, draws: &[WgrDraw3D]) -> (made: Vec<MeshPipelineDesc>)
        requires
            old(self).wf(),
        ensures
            final(self).wf(),
            *final(self) == (Gfx3d { pipelines: final(self).pipelines, ..*old(self) }),
            final(self).pipelines@ == keys_with(
                old(self).pipelines@,
                draws@,
                draws@.len(),
                old(self).meshes@,
            ),
            made@.len() == final(self).pipelines@.len() - old(self).pipelines@.len(),
            forall|i: int|
                0 <= i < made@.len() ==> #[trigger] made@[i] == pipeline_of(
                    final(self).pipelines@[old(self).pipelines@.len() + i],
                ),
    {
        let ghost start = *self;
        let mut made: Vec<MeshPipelineDesc> = Vec::new();
        let mut i: usize = 0;
        while i < draws.len()
            invariant
                self.wf(),
                i <= draws@.len(),
                *self == (Gfx3d { pipelines: self.pipelines, ..start }),
                self.pipelines@ == keys_with(start.pipelines@, draws@, i as nat, start.meshes@),
                made@.len() == self.pipelines@.len() - start.pipelines@.len(),
                forall|k: int|
                    0 <= k < made@.len() ==> #[trigger] made@[k] == pipeline_of(
                        self.pipelines@[start.pipelines@.len() + k],
                    ),
            decreases draws@.len() - i,
        {
            let d: &WgrDraw3D = &draws[i];
            let has_skin: bool = match find_mesh(&self.meshes, d.mesh) {
                Some(m) => m.skinned,
                None => false,
            };
            let key = PipelineKey::from_draw(d, d.palette_slot != NO_PALETTE && has_skin);
            let ghost before = self.pipelines@;
            if let Some(desc) = self.pipelines.ensure_pipeline(&key) {
                made.push(desc);
                proof {
                    let n = start.pipelines@.len();
                    assert forall|k: int| 0 <= k < made@.len() implies #[trigger] made@[k]
                        == pipeline_of(self.pipelines@[n + k]) by {
                        if k < made@.len() - 1 {
                            assert(self.pipelines@[n + k] == before[n + k]);
                        }
                    }
                }
            }
            i = i + 1;
        }
        made
    }

    /// What mesh draws find bound.
    pub open spec fn spec_env(&self) -> PassEnv {
        PassEnv {
            camera_stride: self.cameras.stride,
            palette_stride: self.palette_stride,
            cameras_bound: self.cameras.bound,
            ground_bound: true,
            instances_bound: self.plain_bound,
            bones_bound: self.skinned_bound,
        }
    }

    /// What mesh draws find bound. Ground is always bound, be it the stand-in.
    pub fn env(&self) -> (e: PassEnv)
        ensures
            e == self.spec_env(),
    {
        PassEnv {
            camera_stride: self.cameras.stride,
            palette_stride: self.palette_stride,
            cameras_bound: self.cameras.bound,
            ground_bound: true,
            instances_bound: self.plain_bound,
            bones_bound: self.skinned_bound,
        }
    }

    /// Plans a frame over the live meshes.
    pub fn plan_3d(&self, cmds: &[WgrCmd], draws: &[WgrDraw3D]) -> (plan: Plan3d)
        requires
            cmds@.len() <= u32::MAX,
            sections_countable(cmds@, draws@, self.meshes@),
        ensures
            plan.order@ == frame_plan(cmds@, draws@, self.meshes@).order,
            plan.ops@ == frame_plan(cmds@, draws@, self.meshes@).ops,
    {
        plan_3d(&self.meshes, cmds, draws)
    }

    /// The instructions for one draw.
    pub fn draw_one(&self, d: &WgrDraw3D, base: u32, count: u32, st: &mut Pass3dState) -> (cmds:
        Vec<PassCmd>)
        requires
            self.wf(),
            d.index_count != 0 && mesh_at(self.meshes@, d.mesh) is Some ==> d.index_end()
                <= u32::MAX,
            can_draw(d, self.spec_env(), self.pipelines@, self.meshes@) ==> base + count
                <= u32::MAX,
        ensures
            !can_draw(d, self.spec_env(), self.pipelines@, self.meshes@) ==> cmds@.len() == 0
                && *final(st) == *old(st),
            can_draw(d, self.spec_env(), self.pipelines@, self.meshes@) ==> {
                let p = pipeline_position(d, self.pipelines@, self.meshes@) as usize;
                let skinned = draw_skinned(d, self.meshes@);
                &&& cmds@ == draw_cmds(d, base, count, p, skinned, self.spec_env(), *old(st))
                &&& *final(st) == drawn_state(d, p, skinned, self.spec_env(), *old(st))
            },
    {
        let env = self.env();
        draw_one(&self.meshes, &self.pipelines, &env, d, base, count, st)
    }
}

/// A prepared frame draws everything that its plan asks for: whatever shows anything finds its
/// pipeline built, and, with a camera, everything else bound.
pub proof fn prepared_draws_can_be_drawn(
    before: Gfx3d,
    after: Gfx3d,
    draws: Seq<WgrDraw3D>,
    slots: nat,
    inputs: FrameInputs,
    i: int,
)
    requires
        before.wf(),
        after.wf(),
        before.prepared(
            inputs,
            slots,
            keys_with(before.pipelines@, draws, draws.len(), before.meshes@),
            &after,
        ),
        0 <= i < draws.len(),
        slots > 0,
        inputs.cameras > 0,
        is_drawn(&draws[i], before.meshes@),
        draw_skinned(&draws[i], before.meshes@) ==> inputs.palette_len >= PALETTE_SIZE,
    ensures
        can_draw(&draws[i], after.spec_env(), after.pipelines@, after.meshes@),
{
    keys_of_draws_are_kept(before.pipelines@, draws, draws.len(), before.meshes@, i);
}

proof fn keys_of_draws_are_kept(
    keys: Seq<PipelineKey>,
    draws: Seq<WgrDraw3D>,
    n: nat,
    meshes: Map<u64, Record>,
    i: int,
)
    requires
        0 <= i < n <= draws.len(),
    ensures
        keys_with(keys, draws, n, meshes).contains(
            PipelineKey::of_draw(&draws[i], wants_bones(&draws[i], meshes)),
        ),
    decreases n,
{
    let before = keys_with(keys, draws, (n - 1) as nat, meshes);
    let all = keys_with(keys, draws, n, meshes);
    let key = PipelineKey::of_draw(&draws[i], wants_bones(&draws[i], meshes));
    if i < n - 1 {
        keys_of_draws_are_kept(keys, draws, (n - 1) as nat, meshes, i);
        let k = choose|k: int| 0 <= k < before.len() && before[k] == key;
        assert(all[k] == key);
    } else if !before.contains(key) {
        assert(all[before.len() as int] == key);
    }
}

/// Words of a mesh's vertex on the device: place, normal, place in the texture, and how it follows
/// the ground.
pub const VERTEX_WORDS: usize = 9;

/// What a depth probe draws.
pub struct ProbeDraw {
    /// The pipelines for shadows have to be built first.
    pub build_pipelines: bool,
    pub pass_grew: bool,
    pub casters_grew: bool,
    /// Vertices that have a place and nothing else.
    pub vertices: Vec<u32>,
    pub indices: Vec<u16>,
    /// The light's matrix, seen from the origin.
    pub pass: Vec<u32>,
    /// A caster that stays where it is.
    pub caster: Vec<u32>,
}

/// The coordinates are those of whole triangles, of some but not too many.
pub open spec fn whole_triangles(coords: int) -> bool {
    let verts = coords / 3;
    verts != 0 && verts % 3 == 0 && verts <= u16::MAX
}

/// A probe draws so many coordinates, and there is room for what comes back.
pub open spec fn can_probe(coords: int, res: u32, out_len: int) -> bool {
    whole_triangles(coords) && out_len >= res * res
}

/// The vertices of a probe.
pub open spec fn probe_vertices(xyz: Seq<u32>, verts: nat) -> Seq<u32> {
    Seq::new(
        verts * VERTEX_WORDS as nat,
        |w: int|
            if w % 9 < 3 {
                xyz[3 * (w / 9) + w % 9]
            } else {
                0
            },
    )
}

/// A caster that stays where it is: ones along the diagonal of its matrix.
pub open spec fn still_caster() -> Seq<u32> {
    Seq::new(
        CASTER_WORDS as nat,
        |w: int|
            if w < 16 && w % 5 == 0 {
                ONE
            } else {
                0
            },
    )
}

fn build_probe_vertices(xyz: &[u32], verts: usize) -> (out: Vec<u32>)
    requires
        3 * verts <= xyz@.len(),
        verts <= 0xffff,
    ensures
        out@ == probe_vertices(xyz@, verts as nat),
{
    let ghost all = probe_vertices(xyz@, verts as nat);
    let mut out: Vec<u32> = Vec::new();
    let mut w: usize = 0;
    while w < verts * VERTEX_WORDS
        invariant
            3 * verts <= xyz@.len(),
            verts <= 0xffff,
            w <= verts * VERTEX_WORDS,
            all == probe_vertices(xyz@, verts as nat),
            out@ == all.take(w as int),
        decreases verts * VERTEX_WORDS - w,
    {
        let word: u32 = if w % 9 < 3 {
            xyz[3 * (w / 9) + w % 9]
        } else {
            0
        };
        out.push(word);
        proof {
            assert(all[w as int] == word);
            assert(all.take(w as int).push(word) =~= all.take(w + 1));
        }
        w = w + 1;
    }
    proof {
        assert(all.take(w as int) =~= all);
    }
    out
}

fn build_probe_indices(verts: usize) -> (out: Vec<u16>)
    requires
        verts <= 0xffff,
    ensures
        out@ == Seq::new(verts as nat, |i: int| i as u16),
{
    let ghost all = Seq::new(verts as nat, |i: int| i as u16);
    let mut out: Vec<u16> = Vec::new();
    let mut i: usize = 0;
    while i < verts
        invariant
            i <= verts <= 0xffff,
            all == Seq::new(verts as nat, |i: int| i as u16),
            out@ == all.take(i as int),
        decreases verts - i,
    {
        out.push(i as u16);
        proof {
            assert(all[i as int] == i as u16);
            assert(all.take(i as int).push(i as u16) =~= all.take(i + 1));
        }
        i = i + 1;
    }
    proof {
        assert(all.take(i as int) =~= all);
    }
    out
}

fn build_still_caster() -> (out: Vec<u32>)
    ensures
        out@ == still_caster(),
{
    let mut out: Vec<u32> = Vec::new();
    let mut w: usize = 0;
    while w < CASTER_WORDS
        invariant
            w <= CASTER_WORDS,
            out@ == still_caster().take(w as int),
        decreases CASTER_WORDS - w,
    {
        let word: u32 = if w < 16 && w % 5 == 0 {
            ONE
        } else {
            0
        };
        out.push(word);
        proof {
            assert(still_caster()[w as int] == word);
            assert(still_caster().take(w as int).push(word) =~= still_caster().take(w + 1));
        }
        w = w + 1;
    }
    proof {
        assert(still_caster().take(w as int) =~= still_caster());
    }
    out
}

impl Gfx3d {
    /// Draws triangles into a shadow map of its own: how, if they can be drawn.
    pub fn shadow_depth_probe(
        &mut self,
        light_vp: &WgrMat4,
        verts_xyz: &[u32],
        res: u32,
        out_len: usize,
    ) -> (probe: Option<ProbeDraw>)
        requires
            old(self).wf(),
            whole_triangles(verts_xyz@.len() as int) ==> res * res <= u32::MAX,
        ensures
            final(self).wf(),
            probe is Some <==> can_probe(verts_xyz@.len() as int, res, out_len as int),
            probe is None ==> *final(self) == *old(self),
            probe matches Some(p) ==> {
                &&& *final(self) == (Gfx3d {
                    shadow_pipelines: true,
                    shadow_pass: old(self).shadow_pass.after(
                        old(self).shadow_pass_stride as int,
                        old(self).shadow_pass_stride * 64,
                    ),
                    shadow_casters: old(self).shadow_casters.after(96, MIN_STORAGE as int),
                    ..*old(self)
                })
                &&& p.build_pipelines == !old(self).shadow_pipelines
                &&& p.pass_grew == !old(self).shadow_pass.fits(
                    old(self).shadow_pass_stride as int,
                )
                &&& p.casters_grew == !old(self).shadow_casters.fits(96)
                &&& p.vertices@ == probe_vertices(verts_xyz@, verts_xyz@.len() / 3)
                &&& p.indices@ == Seq::new(verts_xyz@.len() / 3, |i: int| i as u16)
                &&& p.pass@ == light_vp@ + seq![0u32, 0, 0, 0]
                &&& p.caster@ == still_caster()
            },
    {
        let count: usize = verts_xyz.len() / 3;
        if count == 0 || count % 3 != 0 || count > 0xffff {
            return None;
        }
        if (out_len as u64) < (res * res) as u64 {
            return None;
        }
        let build_pipelines: bool = !self.shadow_pipelines;
        self.shadow_pipelines = true;
        let stride: u64 = self.shadow_pass_stride;
        let pass_grew: bool = self.shadow_pass.ensure(stride, stride * 64);
        let casters_grew: bool = self.shadow_casters.ensure(96, MIN_STORAGE);
        let mut pass: Vec<u32> = Vec::new();
        let mut i: usize = 0;
        while i < 16
            invariant
                i <= 16,
                pass@ == light_vp@.take(i as int),
            decreases 16 - i,
        {
            pass.push(light_vp[i]);
            proof {
                assert(light_vp@.take(i as int).push(light_vp@[i as int]) =~= light_vp@.take(
                    i + 1,
                ));
            }
            i = i + 1;
        }
        pass.push(0);
        pass.push(0);
        pass.push(0);
        pass.push(0);
        proof {
            assert(pass@ =~= light_vp@ + seq![0u32, 0, 0, 0]);
        }
        Some(
            ProbeDraw {
                build_pipelines,
                pass_grew,
                casters_grew,
                vertices: build_probe_vertices(verts_xyz, count),
                indices: build_probe_indices(count),
                pass,
                caster: build_still_caster(),
            },
        )
    }
}

/// Bytes of one row of depths, rounded up to what a device copies by.
pub open spec fn padded_row(res: int, align: int) -> int {
    ceil_div(res * 4, align) * align
}

/// Bytes of one row of depths, rounded up to what a device copies by.
pub fn padded_row_bytes(res: u32, align: u32) -> (n: u32)
    requires
        align > 0,
        padded_row(res as int, align as int) <= u32::MAX,
        res * 4 <= u32::MAX,
    ensures
        n == padded_row(res as int, align as int),
{
    let q: u32 = div_ceil_u32(res * 4, align);
    q * align
}

/// The rows of a square map without their padding.
pub open spec fn unpadded(data: Seq<u8>, row: int, padded: int, rows: nat) -> Seq<u8>
    decreases rows,
{
    if rows == 0 {
        Seq::empty()
    } else {
        let y = rows - 1;
        unpadded(data, row, padded, (rows - 1) as nat) + data.subrange(
            y * padded,
            y * padded + row,
        )
    }
}

/// Takes the padding off the rows of a `res` by `res` map of four-byte depths.
pub fn read_depth_rows(data: &[u8], res: u32, padded: u32) -> (out: Vec<u8>)
    requires
        res * 4 <= padded,
        res * padded <= data@.len(),
    ensures
        out@ == unpadded(data@, res * 4, padded as int, res as nat),
        out@.len() == res * res * 4,
{
    let have: usize = data.len();
    let mut out: Vec<u8> = Vec::new();
    let mut y: u32 = 0;
    assert(out@ =~= Seq::empty());
    assert(0int * res == 0) by (nonlinear_arith);
    while y < res
        invariant
            y <= res,
            have == data@.len(),
            res * 4 <= padded,
            res * padded <= data@.len(),
            out@ == unpadded(data@, res * 4, padded as int, y as nat),
            out@.len() == y * res * 4,
        decreases res - y,
    {
        assert(y * padded + padded <= res * padded && 0 <= y * padded) by (nonlinear_arith)
            requires
                y < res,
        ;
        assert((y + 1) * res == y * res + res) by (nonlinear_arith);
        let at: usize = y as usize * padded as usize;
        out.extend_from_slice(
            vstd::slice::slice_subrange(data, at, at + res as usize * 4),
        );
        let ghost before = unpadded(data@, res * 4, padded as int, y as nat);
        y = y + 1;
        assert(out@ =~= before + data@.subrange((y - 1) * padded, (y - 1) * padded + res * 4));
    }
    out
}

/// Four bones, then four weights, of each of the first `n` vertices.
pub open spec fn interleaved(bones: Seq<u8>, weights: Seq<u8>, n: nat) -> Seq<u8>
    decreases n,
{
    if n == 0 {
        Seq::empty()
    } else {
        interleaved(bones, weights, (n - 1) as nat) + bones.subrange(4 * (n - 1), 4 * n as int)
            + weights.subrange(4 * (n - 1), 4 * n as int)
    }
}

fn interleave_skin(bones: &[u8], weights: &[u8], n: u32) -> (data: Vec<u8>)
    requires
        bones@.len() >= 4 * n,
        weights@.len() >= 4 * n,
    ensures
        data@ == interleaved(bones@, weights@, n as nat),
        data@.len() == 8 * n,
{
    let have: usize = bones.len();
    let mut data: Vec<u8> = Vec::new();
    let mut v: u32 = 0;
    assert(data@ =~= Seq::empty());
    while v < n
        invariant
            v <= n,
            have == bones@.len(),
            bones@.len() >= 4 * n,
            weights@.len() >= 4 * n,
            data@ == interleaved(bones@, weights@, v as nat),
            data@.len() == 8 * v,
        decreases n - v,
    {
        let ghost before = data@;
        let at: usize = v as usize * 4;
        data.extend_from_slice(vstd::slice::slice_subrange(bones, at, at + 4));
        data.extend_from_slice(vstd::slice::slice_subrange(weights, at, at + 4));
        v = v + 1;
        assert(data@ =~= before + bones@.subrange(4 * (v - 1), 4 * v) + weights@.subrange(
            4 * (v - 1),
            4 * v,
        ));
    }
    data
}

} // verus!
