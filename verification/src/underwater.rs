use crate::desc::{
    bind, compare_sampler, edge_sampler, entry, half_texture, make_compare_sampler,
    make_edge_sampler, make_half_texture, spec_bind, spec_entry, spec_stages, stages, AddressMode,
    BindEntry, BindGroupDesc, BindingKind, BufferDesc, BufferUse, GpuFormat, LayoutEntry, Resource,
    ResourcePlan, SampleType, SamplerDesc, TextureDesc, ViewDimension,
};
use crate::ffi::{WgrMat4, WgrVec4};
use crate::math::{ceil_div, div_ceil_u32};
use crate::sky::CAMERA_SHADOW_SIZE;
use vstd::prelude::*;

verus! {

/// The volume of light in the water: across and down the screen, and into the distance.
pub const FROXEL_W: u32 = 32;

pub const FROXEL_H: u32 = 18;

pub const FROXEL_D: u32 = 32;

/// Texels along each side of the light that waves throw on the ground.
pub const CAUSTIC_SIZE: u32 = 128;

/// Bytes of the parameters on the device.
pub const UNDERWATER_PARAMS_SIZE: u64 = 192;

/// How far the volume reaches: a hundred and twenty metres.
pub const VOLUME_RANGE: u32 = 0x42f0_0000;

/// The parameters as the device gets them.
#[derive(Clone, Copy, Debug)]
pub struct Params {
    /// Time, height of the camera over the surface, reach of the volume, extinction.
    pub time_height_range_ext: WgrVec4,
    /// Where the camera is, and how many cascades of waves there are.
    pub camera_pos_layers: WgrVec4,
    pub sun_dir_debug: WgrVec4,
    pub sun_radiance: WgrVec4,
    pub inv_view_proj: WgrMat4,
    pub shallow_color: WgrVec4,
    pub deep_color: WgrVec4,
    pub cascade_lengths: WgrVec4,
    pub water_controls: WgrVec4,
}

/// What is known of a frame below the surface, as bit patterns.
#[derive(Clone, Copy, Debug)]
pub struct UnderwaterFrame {
    pub time: u32,
    pub cam_above: u32,
    pub camera_pos: [u32; 3],
    pub inv_view_proj: WgrMat4,
    pub shallow_color: WgrVec4,
    pub deep_color: WgrVec4,
    pub sun_dir: [u32; 3],
    pub sun_radiance: [u32; 3],
    pub cascade_lengths: WgrVec4,
    pub active_layers: u32,
    pub warp_amp: u32,
    pub sea_level: u32,
    pub debug_view: u32,
}

/// What is seen below the surface.
#[derive(Clone, Copy, Debug, PartialEq, Eq, Structural)]
pub struct Underwater {
    /// The device can write textures, so light is carried through the water.
    pub volume: bool,
}

impl Underwater {
    /// Light is carried through the water where the device can write textures.
    pub fn new(volume_storage_supported: bool) -> (u: Underwater)
        ensures
            u.volume == volume_storage_supported,
    {
        Underwater { volume: volume_storage_supported }
    }

    /// The parameters of a frame; shadows go with them if there is a volume.
    pub fn upload(&self, f: &UnderwaterFrame) -> (r: (Params, bool))
        ensures
            r.0.time_height_range_ext@ == seq![
                f.time,
                f.cam_above,
                VOLUME_RANGE,
                f.shallow_color[3],
            ],
            r.0.camera_pos_layers@ == f.camera_pos@.push(f.active_layers),
            r.0.sun_dir_debug@ == f.sun_dir@.push(f.debug_view),
            r.0.sun_radiance@ == f.sun_radiance@.push(0),
            r.0.inv_view_proj == f.inv_view_proj,
            r.0.shallow_color == f.shallow_color,
            r.0.deep_color == f.deep_color,
            r.0.cascade_lengths == f.cascade_lengths,
            r.0.water_controls@ == seq![f.warp_amp, f.sea_level, 0, 0],
            r.1 == self.volume,
    {
        let p = Params {
            time_height_range_ext: [f.time, f.cam_above, VOLUME_RANGE, f.shallow_color[3]],
            camera_pos_layers: [
                f.camera_pos[0],
                f.camera_pos[1],
                f.camera_pos[2],
                f.active_layers,
            ],
            sun_dir_debug: [f.sun_dir[0], f.sun_dir[1], f.sun_dir[2], f.debug_view],
            sun_radiance: [f.sun_radiance[0], f.sun_radiance[1], f.sun_radiance[2], 0],
            inv_view_proj: f.inv_view_proj,
            shallow_color: f.shallow_color,
            deep_color: f.deep_color,
            cascade_lengths: f.cascade_lengths,
            water_controls: [f.warp_amp, f.sea_level, 0, 0],
        };
        proof {
            assert(p.camera_pos_layers@ =~= f.camera_pos@.push(f.active_layers));
            assert(p.sun_dir_debug@ =~= f.sun_dir@.push(f.debug_view));
            assert(p.sun_radiance@ =~= f.sun_radiance@.push(0));
        }
        (p, self.volume)
    }

    /// How many workgroups carry the light, across and down; none without a volume.
    pub fn render_froxel(&self) -> (groups: Option<(u32, u32)>)
        ensures
            groups == if self.volume {
                Some((ceil_div(FROXEL_W as int, 8) as u32, ceil_div(FROXEL_H as int, 8) as u32))
            } else {
                None
            },
    {
        if self.volume {
            Some((div_ceil_u32(FROXEL_W, 8), div_ceil_u32(FROXEL_H, 8)))
        } else {
            None
        }
    }

    /// How many workgroups throw the light on the ground; none without a volume.
    pub fn render_caustics(&self) -> (groups: Option<(u32, u32)>)
        ensures
            groups == if self.volume {
                let n = ceil_div(CAUSTIC_SIZE as int, 8) as u32;
                Some((n, n))
            } else {
                None
            },
    {
        if self.volume {
            let n: u32 = div_ceil_u32(CAUSTIC_SIZE, 8);
            Some((n, n))
        } else {
            None
        }
    }
}

/// A binding of what is drawn over the screen.
pub open spec fn screen_entry(binding: u32, kind: BindingKind) -> LayoutEntry {
    spec_entry(binding, spec_stages(false, true, false), kind)
}

/// A binding of what is computed.
pub open spec fn compute_entry(binding: u32, kind: BindingKind) -> LayoutEntry {
    spec_entry(binding, spec_stages(false, false, true), kind)
}

/// A texture that is read.
pub open spec fn read_kind(sample: SampleType, view: ViewDimension) -> BindingKind {
    BindingKind::Texture { sample, view }
}

/// A uniform buffer of any size.
pub open spec fn any_uniform() -> BindingKind {
    BindingKind::Uniform { dynamic: false, min_size: 0 }
}

/// A texture that is written.
pub open spec fn written_kind(view: ViewDimension) -> BindingKind {
    BindingKind::StorageTexture { format: GpuFormat::Rgba16Float, view }
}

/// What is bound: over the screen; and, with a volume, by the light and by what it throws.
pub open spec fn underwater_layouts() -> Seq<Seq<LayoutEntry>> {
    let plain = read_kind(SampleType::Filterable, ViewDimension::D2);
    let waves = read_kind(SampleType::Filterable, ViewDimension::D2Array);
    seq![
        seq![
            screen_entry(0, plain),
            screen_entry(1, BindingKind::Sampler { comparison: false }),
            screen_entry(2, read_kind(SampleType::Depth, ViewDimension::D2)),
            screen_entry(3, any_uniform()),
            screen_entry(4, read_kind(SampleType::Filterable, ViewDimension::D3)),
            screen_entry(5, plain),
        ],
        seq![
            compute_entry(0, any_uniform()),
            compute_entry(1, written_kind(ViewDimension::D3)),
            compute_entry(2, plain),
            compute_entry(3, BindingKind::Sampler { comparison: false }),
            compute_entry(4, any_uniform()),
            compute_entry(5, read_kind(SampleType::Depth, ViewDimension::D2Array)),
            compute_entry(6, BindingKind::Sampler { comparison: true }),
            compute_entry(7, any_uniform()),
        ],
        seq![
            compute_entry(0, any_uniform()),
            compute_entry(1, waves),
            compute_entry(2, waves),
            compute_entry(3, BindingKind::Sampler { comparison: false }),
            compute_entry(4, written_kind(ViewDimension::D2)),
        ],
    ]
}

/// How the groups are filled. What is drawn over, depth, shadows and waves are lent.
pub open spec fn underwater_groups() -> Seq<Seq<BindEntry>> {
    seq![
        seq![
            spec_bind(0, Resource::Lent),
            spec_bind(1, Resource::Sampler(0)),
            spec_bind(2, Resource::Lent),
            spec_bind(3, Resource::Buffer(0)),
            spec_bind(4, Resource::Texture(0)),
            spec_bind(5, Resource::Texture(1)),
        ],
        seq![
            spec_bind(0, Resource::Buffer(0)),
            spec_bind(1, Resource::Texture(0)),
            spec_bind(2, Resource::Lent),
            spec_bind(3, Resource::Sampler(1)),
            spec_bind(4, Resource::Buffer(1)),
            spec_bind(5, Resource::Lent),
            spec_bind(6, Resource::Sampler(2)),
            spec_bind(7, Resource::Buffer(2)),
        ],
        seq![
            spec_bind(0, Resource::Buffer(0)),
            spec_bind(1, Resource::Lent),
            spec_bind(2, Resource::Lent),
            spec_bind(3, Resource::Sampler(3)),
            spec_bind(4, Resource::Texture(1)),
        ],
    ]
}

/// A sampler that goes round.
pub open spec fn waves_sampler() -> SamplerDesc {
    SamplerDesc {
        address_u: AddressMode::Repeat,
        address_v: AddressMode::Repeat,
        ..edge_sampler()
    }
}

fn make_screen_entry(binding: u32, kind: BindingKind) -> (e: LayoutEntry)
    ensures
        e == screen_entry(binding, kind),
{
    entry(binding, stages(false, true, false), kind)
}

fn make_compute_entry(binding: u32, kind: BindingKind) -> (e: LayoutEntry)
    ensures
        e == compute_entry(binding, kind),
{
    entry(binding, stages(false, false, true), kind)
}

fn make_read_kind(sample: SampleType, view: ViewDimension) -> (k: BindingKind)
    ensures
        k == read_kind(sample, view),
{
    BindingKind::Texture { sample, view }
}

fn make_any_uniform() -> (k: BindingKind)
    ensures
        k == any_uniform(),
{
    BindingKind::Uniform { dynamic: false, min_size: 0 }
}

fn make_written_kind(view: ViewDimension) -> (k: BindingKind)
    ensures
        k == written_kind(view),
{
    BindingKind::StorageTexture { format: GpuFormat::Rgba16Float, view }
}

fn screen_layout() -> (l: Vec<LayoutEntry>)
    ensures
        l@ == underwater_layouts()[0],
{
    let plain = make_read_kind(SampleType::Filterable, ViewDimension::D2);
    let l: Vec<LayoutEntry> = vec![
        make_screen_entry(0, plain),
        make_screen_entry(1, BindingKind::Sampler { comparison: false }),
        make_screen_entry(2, make_read_kind(SampleType::Depth, ViewDimension::D2)),
        make_screen_entry(3, make_any_uniform()),
        make_screen_entry(4, make_read_kind(SampleType::Filterable, ViewDimension::D3)),
        make_screen_entry(5, plain),
    ];
    proof {
        assert(l@ =~= underwater_layouts()[0]);
    }
    l
}

fn light_layout() -> (l: Vec<LayoutEntry>)
    ensures
        l@ == underwater_layouts()[1],
{
    let l: Vec<LayoutEntry> = vec![
        make_compute_entry(0, make_any_uniform()),
        make_compute_entry(1, make_written_kind(ViewDimension::D3)),
        make_compute_entry(2, make_read_kind(SampleType::Filterable, ViewDimension::D2)),
        make_compute_entry(3, BindingKind::Sampler { comparison: false }),
        make_compute_entry(4, make_any_uniform()),
        make_compute_entry(5, make_read_kind(SampleType::Depth, ViewDimension::D2Array)),
        make_compute_entry(6, BindingKind::Sampler { comparison: true }),
        make_compute_entry(7, make_any_uniform()),
    ];
    proof {
        assert(l@ =~= underwater_layouts()[1]);
    }
    l
}

fn caustic_layout() -> (l: Vec<LayoutEntry>)
    ensures
        l@ == underwater_layouts()[2],
{
    let waves = make_read_kind(SampleType::Filterable, ViewDimension::D2Array);
    let l: Vec<LayoutEntry> = vec![
        make_compute_entry(0, make_any_uniform()),
        make_compute_entry(1, waves),
        make_compute_entry(2, waves),
        make_compute_entry(3, BindingKind::Sampler { comparison: false }),
        make_compute_entry(4, make_written_kind(ViewDimension::D2)),
    ];
    proof {
        assert(l@ =~= underwater_layouts()[2]);
    }
    l
}

fn screen_group() -> (g: BindGroupDesc)
    ensures
        g.layout == 0,
        g.entries@ == underwater_groups()[0],
{
    let entries: Vec<BindEntry> = vec![
        bind(0, Resource::Lent),
        bind(1, Resource::Sampler(0)),
        bind(2, Resource::Lent),
        bind(3, Resource::Buffer(0)),
        bind(4, Resource::Texture(0)),
        bind(5, Resource::Texture(1)),
    ];
    proof {
        assert(entries@ =~= underwater_groups()[0]);
    }
    BindGroupDesc { layout: 0, entries }
}

fn light_group() -> (g: BindGroupDesc)
    ensures
        g.layout == 1,
        g.entries@ == underwater_groups()[1],
{
    let entries: Vec<BindEntry> = vec![
        bind(0, Resource::Buffer(0)),
        bind(1, Resource::Texture(0)),
        bind(2, Resource::Lent),
        bind(3, Resource::Sampler(1)),
        bind(4, Resource::Buffer(1)),
        bind(5, Resource::Lent),
        bind(6, Resource::Sampler(2)),
        bind(7, Resource::Buffer(2)),
    ];
    proof {
        assert(entries@ =~= underwater_groups()[1]);
    }
    BindGroupDesc { layout: 1, entries }
}

fn caustic_group() -> (g: BindGroupDesc)
    ensures
        g.layout == 2,
        g.entries@ == underwater_groups()[2],
{
    let entries: Vec<BindEntry> = vec![
        bind(0, Resource::Buffer(0)),
        bind(1, Resource::Lent),
        bind(2, Resource::Lent),
        bind(3, Resource::Sampler(3)),
        bind(4, Resource::Texture(1)),
    ];
    proof {
        assert(entries@ =~= underwater_groups()[2]);
    }
    BindGroupDesc { layout: 2, entries }
}

/// The buffers: the parameters; with a volume, what shadows need.
pub open spec fn underwater_buffers(volume: bool, mapping_size: u64) -> Seq<BufferDesc> {
    let params = BufferDesc { size: UNDERWATER_PARAMS_SIZE, usage: BufferUse::Uniform };
    if volume {
        seq![
            params,
            BufferDesc { size: mapping_size, usage: BufferUse::Uniform },
            BufferDesc { size: CAMERA_SHADOW_SIZE, usage: BufferUse::Uniform },
        ]
    } else {
        seq![params]
    }
}

/// The samplers.
pub open spec fn underwater_samplers(volume: bool) -> Seq<SamplerDesc> {
    if volume {
        seq![edge_sampler(), edge_sampler(), compare_sampler(), waves_sampler()]
    } else {
        seq![edge_sampler()]
    }
}

/// What is made at the start.
pub fn underwater_resources(volume: bool, mapping_size: u64) -> (plan: ResourcePlan)
    ensures
        plan.wf(),
        plan.buffers@ == underwater_buffers(volume, mapping_size),
        plan.textures@ == seq![
            half_texture(FROXEL_W, FROXEL_H, FROXEL_D, ViewDimension::D3, false, volume),
            half_texture(CAUSTIC_SIZE, CAUSTIC_SIZE, 1, ViewDimension::D2, false, volume),
        ],
        plan.samplers@ == underwater_samplers(volume),
        plan.layouts@.len() == if volume {
            3int
        } else {
            1
        },
        forall|l: int|
            0 <= l < plan.layouts@.len() ==> (#[trigger] plan.layouts@[l])@
                == underwater_layouts()[l],
        plan.groups@.len() == plan.layouts@.len(),
        forall|g: int|
            0 <= g < plan.groups@.len() ==> (#[trigger] plan.groups@[g]).layout == g
                && plan.groups@[g].entries@ == underwater_groups()[g],
{
    let mut buffers: Vec<BufferDesc> = Vec::new();
    let mut samplers: Vec<SamplerDesc> = Vec::new();
    let mut layouts: Vec<Vec<LayoutEntry>> = Vec::new();
    let mut groups: Vec<BindGroupDesc> = Vec::new();
    buffers.push(BufferDesc { size: UNDERWATER_PARAMS_SIZE, usage: BufferUse::Uniform });
    samplers.push(make_edge_sampler());
    layouts.push(screen_layout());
    groups.push(screen_group());
    if volume {
        buffers.push(BufferDesc { size: mapping_size, usage: BufferUse::Uniform });
        buffers.push(BufferDesc { size: CAMERA_SHADOW_SIZE, usage: BufferUse::Uniform });
        samplers.push(make_edge_sampler());
        samplers.push(make_compare_sampler());
        let mut round = make_edge_sampler();
        round.address_u = AddressMode::Repeat;
        round.address_v = AddressMode::Repeat;
        samplers.push(round);
        layouts.push(light_layout());
        layouts.push(caustic_layout());
        groups.push(light_group());
        groups.push(caustic_group());
    }
    proof {
        assert(buffers@ =~= underwater_buffers(volume, mapping_size));
        assert(samplers@ =~= underwater_samplers(volume));
    }
    let textures: Vec<TextureDesc> = vec![
        make_half_texture(FROXEL_W, FROXEL_H, FROXEL_D, ViewDimension::D3, false, volume),
        make_half_texture(CAUSTIC_SIZE, CAUSTIC_SIZE, 1, ViewDimension::D2, false, volume),
    ];
    let plan = ResourcePlan { buffers, textures, samplers, layouts, groups };
    proof {
        assert forall|g: int| 0 <= g < plan.groups@.len() implies plan.fits(
            &#[trigger] plan.groups@[g],
        ) by {
            let group = plan.groups@[g];
            assert(plan.layouts@[g]@ == underwater_layouts()[g]);
            assert(group.entries@ == underwater_groups()[g]);
        }
    }
    plan
}

/// Bindings are in the order of their numbers: what is drawn over the screen is read where colours
/// are made, the rest is computed. One texture is written where light is carried, and one where it
/// is thrown; only shadow maps are compared.
pub proof fn the_water_is_bound_in_order(l: int, e: int)
    requires
        0 <= l < 3,
        0 <= e < underwater_layouts()[l].len(),
    ensures
        ({
            let entry = underwater_layouts()[l][e];
            &&& underwater_layouts().len() == 3
            &&& entry.binding == e
            &&& entry.count == 0
            &&& l == 0 ==> entry.stages.fragment && !entry.stages.vertex && !entry.stages.compute
            &&& l > 0 ==> entry.stages.compute && !entry.stages.vertex && !entry.stages.fragment
            &&& entry.kind is StorageTexture <==> (l == 1 && e == 1) || (l == 2 && e == 4)
            &&& entry.kind matches BindingKind::StorageTexture { format, view } ==> format
                == GpuFormat::Rgba16Float && (view == ViewDimension::D3 <==> l == 1)
            &&& entry.kind matches BindingKind::Sampler { comparison } ==> (comparison <==> l == 1
                && e == 6)
            &&& entry.kind matches BindingKind::Texture { sample, .. } ==> (sample
                == SampleType::Depth <==> (l == 0 && e == 2) || (l == 1 && e == 5))
        }),
{
}

/// What is computed is what is drawn: the light that is carried through the water and the light
/// that waves throw are written by one group each, and both are read over the screen.
pub proof fn light_is_drawn_as_computed(g: int, e: int)
    requires
        0 <= g < 3,
        0 <= e < underwater_groups()[g].len(),
    ensures
        ({
            let group = underwater_groups()[g];
            &&& underwater_groups().len() == 3
            &&& group.len() == underwater_layouts()[g].len()
            &&& group[e].binding == e
            &&& group[e].resource == Resource::Texture(0) <==> (g == 0 && e == 4) || (g == 1 && e
                == 1)
            &&& group[e].resource == Resource::Texture(1) <==> (g == 0 && e == 5) || (g == 2 && e
                == 4)
            &&& group[e].resource == Resource::Buffer(0) <==> (g == 0 && e == 3) || (g > 0 && e
                == 0)
            &&& group[e].resource == Resource::Buffer(1) <==> g == 1 && e == 4
            &&& group[e].resource == Resource::Buffer(2) <==> g == 1 && e == 7
            &&& group[e].resource == Resource::Lent <==> (g == 0 && (e == 0 || e == 2)) || (g == 1
                && (e == 2 || e == 5)) || (g == 2 && (e == 1 || e == 2))
        }),
{
}

/// Without a volume there are the parameters and one sampler. With one there are two more buffers,
/// for shadows, and three more samplers: one like the first, one that compares, and one that goes
/// round.
pub proof fn a_volume_takes_more(volume: bool, mapping_size: u64)
    ensures
        ({
            let (buffers, samplers) = (
                underwater_buffers(volume, mapping_size),
                underwater_samplers(volume),
            );
            &&& buffers[0].size == 192
            &&& buffers.len() == if volume {
                3int
            } else {
                1
            }
            &&& samplers.len() == if volume {
                4int
            } else {
                1
            }
            &&& volume ==> buffers[1].size == mapping_size && buffers[2].size == 352
            &&& forall|i: int|
                0 <= i < buffers.len() ==> (#[trigger] buffers[i]).usage == BufferUse::Uniform
            &&& forall|i: int|
                0 <= i < samplers.len() ==> ((#[trigger] samplers[i]).comparison <==> i == 2) && (
                samplers[i].address_u == AddressMode::Repeat <==> i == 3) && samplers[i].address_v
                    == samplers[i].address_u && samplers[i].address_w == AddressMode::ClampToEdge
        }),
{
}

} // verus!
