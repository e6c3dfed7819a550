use crate::buffers::Growable;
use crate::desc::{
    bind, entry, spec_bind, spec_entry, spec_stages, stages, BindEntry, BindGroupDesc, BindingKind,
    BlendFactor, BlendState, BufferDesc, BufferUse, ColorTarget, DepthCompare, DepthDesc,
    LayoutEntry, RenderPipelineDesc, Resource, ResourcePlan,
};
use crate::ffi::{WgrBlend, WgrDraw2DBatch};
use crate::gfx3d::pipeline_laws::is_visible;
use crate::gfx3d::pipelines::{blend_of, blend_state};
use vstd::prelude::*;

verus! {

/// Bytes of a flat vertex on the device.
pub const VERTEX_2D_SIZE: u64 = 32;

/// Bytes of the buffer of flat vertices at least.
pub const MIN_VERTICES: u64 = 65536;

/// Bytes of what all flat batches share: the screen's size and the fog's colour.
pub const GLOBALS_SIZE: u64 = 32;

/// Drawing what is flat, and meshes that were projected by the processor.
#[derive(Clone, Copy, Debug, PartialEq, Eq, Structural)]
pub struct Gfx2d {
    pub vertices: Growable,
}

/// A flat batch: its pipeline, and the rest in the order in which it is bound.
#[derive(Clone, Copy, Debug, PartialEq, Eq, Structural)]
pub struct FlatDraw {
    /// Which depth mode and which blend the pipeline is for.
    pub depth_set: usize,
    pub blend_set: usize,
    pub texture: u64,
    pub sampler: usize,
    pub first_vertex: u32,
    pub end_vertex: u32,
}

/// The depth mode that a batch is drawn with: none if it names none.
pub open spec fn depth_set_of(depth: u32) -> usize {
    if depth < 3 {
        depth as usize
    } else {
        0
    }
}

/// The blend that a batch is drawn with: by opacity if there is no pipeline for its own.
pub open spec fn blend_set_of(blend: WgrBlend) -> usize {
    if blend.spec_code() < 3 {
        blend.spec_code() as usize
    } else {
        1
    }
}

impl Gfx2d {
    /// No vertices yet.
    pub fn new() -> (g: Gfx2d)
        ensures
            g.vertices == Growable::spec_absent(),
    {
        Gfx2d { vertices: Growable::absent() }
    }

    /// What all batches share, as it is uploaded.
    pub fn globals(&self, screen: [u32; 2], fog: [u32; 3]) -> (words: [u32; 8])
        ensures
            words@ == seq![screen[0], screen[1], 0, 0, fog[0], fog[1], fog[2], 0],
    {
        [screen[0], screen[1], 0, 0, fog[0], fog[1], fog[2], 0]
    }

    /// Makes room for this frame's vertices; true if their buffer has to be made anew.
    pub fn prepare(&mut self, verts: usize) -> (grew: bool)
        requires
            verts <= u32::MAX,
        ensures
            final(self).vertices == if verts > 0 {
                old(self).vertices.after(verts * VERTEX_2D_SIZE, MIN_VERTICES as int)
            } else {
                old(self).vertices
            },
            grew == (verts > 0 && !old(self).vertices.fits(verts * VERTEX_2D_SIZE)),
    {
        if verts == 0 {
            return false;
        }
        self.vertices.ensure(verts as u64 * VERTEX_2D_SIZE, MIN_VERTICES)
    }

    /// How a batch is drawn; not at all if it is empty or nothing was ever uploaded.
    pub fn draw_one(&self, b: &WgrDraw2DBatch) -> (d: Option<FlatDraw>)
        requires
            b.vertex_count != 0 && self.vertices.exists ==> b.first_vertex + b.vertex_count
                <= u32::MAX,
        ensures
            d == if b.vertex_count != 0 && self.vertices.exists {
                Some(
                    FlatDraw {
                        depth_set: depth_set_of(b.depth),
                        blend_set: blend_set_of(b.blend),
                        texture: b.texture_id,
                        sampler: b.sampler.0 as usize,
                        first_vertex: b.first_vertex,
                        end_vertex: (b.first_vertex + b.vertex_count) as u32,
                    },
                )
            } else {
                None
            },
    {
        if b.vertex_count == 0 || !self.vertices.exists {
            return None;
        }
        let depth_set: usize = if b.depth < 3 {
            b.depth as usize
        } else {
            0
        };
        let code: u32 = b.blend.code();
        let blend_set: usize = if code < 3 {
            code as usize
        } else {
            1
        };
        Some(
            FlatDraw {
                depth_set,
                blend_set,
                texture: b.texture_id,
                sampler: b.sampler.index(),
                first_vertex: b.first_vertex,
                end_vertex: b.first_vertex + b.vertex_count,
            },
        )
    }
}

/// The blend of a set.
pub open spec fn set_blend(blend_set: usize) -> Option<BlendState> {
    if blend_set == 0 {
        blend_of(WgrBlend::Opaque)
    } else if blend_set == 1 {
        blend_of(WgrBlend::Alpha)
    } else {
        blend_of(WgrBlend::Additive)
    }
}

/// The pipeline of a depth mode and a blend: tested if the mode says so, written only by the last.
pub open spec fn flat_pipeline_of(depth_set: usize, blend_set: usize) -> RenderPipelineDesc {
    RenderPipelineDesc {
        target: ColorTarget::Scene,
        blend: set_blend(blend_set),
        depth: Some(
            DepthDesc {
                write: depth_set == 2,
                compare: if depth_set == 0 {
                    DepthCompare::Always
                } else {
                    DepthCompare::LessEqual
                },
            },
        ),
        cull_back: false,
        linear: false,
    }
}

/// The pipeline of a depth mode and a blend.
pub fn flat_pipeline(depth_set: usize, blend_set: usize) -> (p: RenderPipelineDesc)
    requires
        depth_set < 3,
        blend_set < 3,
    ensures
        p == flat_pipeline_of(depth_set, blend_set),
{
    let blend: Option<BlendState> = if blend_set == 0 {
        blend_state(WgrBlend::Opaque)
    } else if blend_set == 1 {
        blend_state(WgrBlend::Alpha)
    } else {
        blend_state(WgrBlend::Additive)
    };
    RenderPipelineDesc {
        target: ColorTarget::Scene,
        blend,
        depth: Some(
            DepthDesc {
                write: depth_set == 2,
                compare: if depth_set == 0 {
                    DepthCompare::Always
                } else {
                    DepthCompare::LessEqual
                },
            },
        ),
        cull_back: false,
        linear: false,
    }
}

/// What flat drawing makes at its start.
pub fn flat_resources() -> (plan: ResourcePlan)
    ensures
        plan.wf(),
        plan.buffers@ == seq![BufferDesc { size: GLOBALS_SIZE, usage: BufferUse::Uniform }],
        plan.textures@.len() == 0,
        plan.samplers@.len() == 0,
        plan.layouts@.len() == 1,
        plan.layouts@[0]@ == seq![
            spec_entry(
                0,
                spec_stages(true, true, false),
                BindingKind::Uniform { dynamic: false, min_size: 0 },
            ),
        ],
        plan.groups@.len() == 1,
        plan.groups@[0].layout == 0,
        plan.groups@[0].entries@ == seq![spec_bind(0, Resource::Buffer(0))],
{
    let layout: Vec<LayoutEntry> = vec![
        entry(0, stages(true, true, false), BindingKind::Uniform { dynamic: false, min_size: 0 }),
    ];
    let entries: Vec<BindEntry> = vec![bind(0, Resource::Buffer(0))];
    let mut layouts: Vec<Vec<LayoutEntry>> = Vec::new();
    layouts.push(layout);
    let mut groups: Vec<BindGroupDesc> = Vec::new();
    groups.push(BindGroupDesc { layout: 0, entries });
    ResourcePlan {
        buffers: vec![BufferDesc { size: GLOBALS_SIZE, usage: BufferUse::Uniform }],
        textures: Vec::new(),
        samplers: Vec::new(),
        layouts,
        groups,
    }
}

/// What a batch asks for always has a pipeline, and with a depth mode and blend of its own the
/// pipeline has both.
pub proof fn every_batch_has_a_pipeline(depth: u32, blend: WgrBlend)
    ensures
        depth_set_of(depth) < 3,
        blend_set_of(blend) < 3,
        blend != WgrBlend::Shadow ==> set_blend(blend_set_of(blend)) == blend_of(blend),
        depth == 1 || depth == 2 ==> flat_pipeline_of(
            depth_set_of(depth),
            blend_set_of(blend),
        ).depth->0.compare == DepthCompare::LessEqual,
{
}

/// A batch that uses no depth, or names no mode, is drawn everywhere; any other is drawn unless
/// something nearer is there, and nearer is smaller. Depth changes only for the last mode. What is
/// flat is seen from both sides.
pub proof fn flat_depth_is_used_as_asked(depth: u32, blend: WgrBlend, new: int, old: int)
    ensures
        ({
            let p = flat_pipeline_of(depth_set_of(depth), blend_set_of(blend));
            &&& p.depth matches Some(d) && (is_visible(d.compare, new, old) <==> ((depth != 1
                && depth != 2) || new <= old)) && (d.write <==> depth == 2)
            &&& !p.cull_back
            &&& !p.linear
            &&& p.target == ColorTarget::Scene
        }),
{
}

/// A batch without a blend of its own is drawn by opacity; every other one has its own.
pub proof fn flat_colours_mix_as_asked(depth: u32, blend: WgrBlend)
    ensures
        ({
            let p = flat_pipeline_of(depth_set_of(depth), blend_set_of(blend));
            &&& blend == WgrBlend::Opaque <==> p.blend is None
            &&& p.blend matches Some(b) ==> b.color.src == BlendFactor::SrcAlpha && (blend
                == WgrBlend::Additive <==> b.color.dst == BlendFactor::One) && (blend
                == WgrBlend::Alpha || blend == WgrBlend::Shadow <==> b.color.dst
                == BlendFactor::OneMinusSrcAlpha)
        }),
{
}

} // verus!
