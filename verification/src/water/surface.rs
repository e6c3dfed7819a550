use crate::buffers::Growable;
use crate::desc::{
    bind, entry, spec_bind, spec_entry, spec_stages, stages, AddressMode, BindEntry, BindGroupDesc,
    BindingKind, BufferDesc, BufferUse, ColorTarget, DepthCompare, DepthDesc, FilterMode, GpuFormat,
    LayoutEntry, RenderPipelineDesc, Resource, ResourcePlan, SampleType, SamplerDesc, TextureDesc,
    TextureUse, ViewDimension,
};
use crate::ffi::WgrBlend;
use crate::gfx3d::pipelines::{blend_of, blend_state};
use vstd::prelude::*;

verus! {

/// Bytes of a node of the water on the device.
pub const WATER_NODE_SIZE: u64 = 24;

/// Nodes there is room for at first.
pub const WATER_FIRST_NODES: u64 = 64;

/// The surface of the sea.
pub struct Water {
    /// Generations of the depth and of the reflected sky that are bound; the stand-ins at first.
    pub depth_gen: u64,
    pub env_gen: u64,
    pub instances: Growable,
    pub instance_count: u32,
    /// A map is loaded.
    pub have_params: bool,
}

impl Water {
    /// No map is loaded.
    pub fn new() -> (w: Water)
        ensures
            w.depth_gen == u64::MAX,
            w.env_gen == u64::MAX,
            w.instances == (Growable {
                cap: (WATER_FIRST_NODES * WATER_NODE_SIZE) as u64,
                exists: true,
            }),
            w.instance_count == 0,
            !w.have_params,
    {
        Water {
            depth_gen: u64::MAX,
            env_gen: u64::MAX,
            instances: Growable { cap: WATER_FIRST_NODES * WATER_NODE_SIZE, exists: true },
            instance_count: 0,
            have_params: false,
        }
    }

    /// Shows the water the scene's depth; true if the group has to be filled again.
    pub fn set_depth_view(&mut self, view_gen: u64) -> (rebind: bool)
        ensures
            rebind == (old(self).depth_gen != view_gen),
            *final(self) == (Water { depth_gen: view_gen, ..*old(self) }),
    {
        if self.depth_gen == view_gen {
            return false;
        }
        self.depth_gen = view_gen;
        true
    }

    /// Shows the water the sky it reflects; true if the group has to be filled again.
    pub fn set_env_view(&mut self, view_gen: u64) -> (rebind: bool)
        ensures
            rebind == (old(self).env_gen != view_gen),
            *final(self) == (Water { env_gen: view_gen, ..*old(self) }),
    {
        if self.env_gen == view_gen {
            return false;
        }
        self.env_gen = view_gen;
        true
    }

    /// Notes that there are parameters; they are uploaded as they are.
    pub fn set_params(&mut self)
        ensures
            *final(self) == (Water { have_params: true, ..*old(self) }),
    {
        self.have_params = true;
    }

    /// Makes room for this frame's nodes; true if their buffer has to be made anew.
    pub fn prepare(&mut self, nodes: usize) -> (grew: bool)
        requires
            nodes <= u32::MAX,
        ensures
            final(self).instance_count == nodes,
            final(self).instances == if nodes > 0 {
                old(self).instances.after(nodes * WATER_NODE_SIZE, 0)
            } else {
                old(self).instances
            },
            grew == (nodes > 0 && !old(self).instances.fits(nodes * WATER_NODE_SIZE)),
            final(self).depth_gen == old(self).depth_gen,
            final(self).env_gen == old(self).env_gen,
            final(self).have_params == old(self).have_params,
    {
        self.instance_count = nodes as u32;
        if nodes == 0 {
            return false;
        }
        self.instances.ensure(nodes as u64 * WATER_NODE_SIZE, 0)
    }

    /// The nodes that a batch draws, the end left out; none before a map is loaded, and none if
    /// any of them is not there.
    pub fn draw(&self, first_node: u32, node_count: u32) -> (range: Option<(u32, u32)>)
        requires
            self.have_params && node_count != 0 ==> first_node + node_count <= u32::MAX,
        ensures
            range == if self.have_params && node_count != 0 && first_node + node_count
                <= self.instance_count {
                Some((first_node, (first_node + node_count) as u32))
            } else {
                None
            },
    {
        if !self.have_params || node_count == 0 {
            return None;
        }
        if first_node + node_count > self.instance_count {
            return None;
        }
        Some((first_node, first_node + node_count))
    }
}

/// What the water binds besides the camera: its parameters, the scene's depth, and the sky it
/// reflects.
pub open spec fn water_layout() -> Seq<LayoutEntry> {
    seq![
        spec_entry(
            0,
            spec_stages(true, true, false),
            BindingKind::Uniform { dynamic: false, min_size: 0 },
        ),
        spec_entry(
            1,
            spec_stages(false, true, false),
            BindingKind::Texture { sample: SampleType::Depth, view: ViewDimension::D2 },
        ),
        spec_entry(
            2,
            spec_stages(false, true, false),
            BindingKind::Texture { sample: SampleType::Filterable, view: ViewDimension::D2 },
        ),
        spec_entry(3, spec_stages(false, true, false), BindingKind::Sampler { comparison: false }),
    ]
}

/// How the water's group is filled until there is something to show.
pub open spec fn water_group() -> Seq<BindEntry> {
    seq![
        spec_bind(0, Resource::Buffer(0)),
        spec_bind(1, Resource::Texture(0)),
        spec_bind(2, Resource::Texture(1)),
        spec_bind(3, Resource::Sampler(0)),
    ]
}

/// A texture of a single texel that is only read.
pub open spec fn stand_in(format: GpuFormat) -> TextureDesc {
    TextureDesc {
        width: 1,
        height: 1,
        layers: 1,
        format,
        usage: TextureUse {
            sampled: true,
            storage: false,
            attachment: false,
            copy_dst: false,
            copy_src: false,
        },
        view: ViewDimension::D2,
    }
}

/// A texture of a single texel that is only read.
pub fn make_stand_in(format: GpuFormat) -> (t: TextureDesc)
    ensures
        t == stand_in(format),
{
    TextureDesc {
        width: 1,
        height: 1,
        layers: 1,
        format,
        usage: TextureUse {
            sampled: true,
            storage: false,
            attachment: false,
            copy_dst: false,
            copy_src: false,
        },
        view: ViewDimension::D2,
    }
}

/// What the water makes at its start. The sky goes round sideways and ends at the poles.
pub fn water_resources(params_size: u64) -> (plan: ResourcePlan)
    ensures
        plan.wf(),
        plan.buffers@ == seq![BufferDesc { size: params_size, usage: BufferUse::Uniform }],
        plan.textures@ == seq![stand_in(GpuFormat::Depth32Float), stand_in(GpuFormat::Rgba16Float)],
        plan.samplers@ == seq![
            SamplerDesc {
                address_u: AddressMode::Repeat,
                address_v: AddressMode::ClampToEdge,
                address_w: AddressMode::ClampToEdge,
                filter: FilterMode::Linear,
                mipmap: FilterMode::Nearest,
                anisotropy: 1,
                comparison: false,
            },
        ],
        plan.layouts@.len() == 1,
        plan.layouts@[0]@ == water_layout(),
        plan.groups@.len() == 1,
        plan.groups@[0].layout == 0,
        plan.groups@[0].entries@ == water_group(),
{
    let mut layouts: Vec<Vec<LayoutEntry>> = Vec::new();
    layouts.push(
        vec![
            entry(
                0,
                stages(true, true, false),
                BindingKind::Uniform { dynamic: false, min_size: 0 },
            ),
            entry(
                1,
                stages(false, true, false),
                BindingKind::Texture { sample: SampleType::Depth, view: ViewDimension::D2 },
            ),
            entry(
                2,
                stages(false, true, false),
                BindingKind::Texture { sample: SampleType::Filterable, view: ViewDimension::D2 },
            ),
            entry(3, stages(false, true, false), BindingKind::Sampler { comparison: false }),
        ],
    );
    let mut groups: Vec<BindGroupDesc> = Vec::new();
    groups.push(
        BindGroupDesc {
            layout: 0,
            entries: vec![
                bind(0, Resource::Buffer(0)),
                bind(1, Resource::Texture(0)),
                bind(2, Resource::Texture(1)),
                bind(3, Resource::Sampler(0)),
            ],
        },
    );
    ResourcePlan {
        buffers: vec![BufferDesc { size: params_size, usage: BufferUse::Uniform }],
        textures: vec![
            make_stand_in(GpuFormat::Depth32Float),
            make_stand_in(GpuFormat::Rgba16Float),
        ],
        samplers: vec![
            SamplerDesc {
                address_u: AddressMode::Repeat,
                address_v: AddressMode::ClampToEdge,
                address_w: AddressMode::ClampToEdge,
                filter: FilterMode::Linear,
                mipmap: FilterMode::Nearest,
                anisotropy: 1,
                comparison: false,
            },
        ],
        layouts,
        groups,
    }
}

/// How water is drawn: blended over what is behind it, hidden by coasts, hiding nothing.
pub fn water_pipeline(scene_is_linear: bool) -> (p: RenderPipelineDesc)
    ensures
        p == (RenderPipelineDesc {
            target: ColorTarget::Scene,
            blend: blend_of(WgrBlend::Alpha),
            depth: Some(DepthDesc { write: false, compare: DepthCompare::GreaterEqual }),
            cull_back: false,
            linear: scene_is_linear,
        }),
{
    RenderPipelineDesc {
        target: ColorTarget::Scene,
        blend: blend_state(WgrBlend::Alpha),
        depth: Some(DepthDesc { write: false, compare: DepthCompare::GreaterEqual }),
        cull_back: false,
        linear: scene_is_linear,
    }
}

/// The water's bindings are in the order of their numbers. It reads the scene's depth, the sky that
/// it reflects, and how that is read; and until there are any, a single texel of each.
pub proof fn the_surface_is_bound_in_order(b: int, format: GpuFormat)
    requires
        0 <= b < 4,
    ensures
        water_layout().len() == 4,
        water_group().len() == 4,
        water_layout()[b].binding == b,
        water_group()[b].binding == b,
        water_layout()[b].count == 0,
        water_layout()[b].stages.fragment,
        water_layout()[b].stages.vertex <==> b == 0,
        water_layout()[b].kind is Uniform <==> b == 0,
        water_layout()[b].kind is Sampler <==> b == 3,
        water_layout()[b].kind matches BindingKind::Texture { sample, view } ==> view
            == ViewDimension::D2 && (sample == SampleType::Depth <==> b == 1) && (sample
            == SampleType::Filterable <==> b == 2),
        stand_in(format).width == 1,
        stand_in(format).height == 1,
        stand_in(format).layers == 1,
        stand_in(format).format == format,
        stand_in(format).usage.sampled,
        !stand_in(format).usage.storage,
        !stand_in(format).usage.attachment,
        stand_in(format).view == ViewDimension::D2,
{
}

} // verus!
