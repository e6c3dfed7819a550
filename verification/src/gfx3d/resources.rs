use crate::desc::{
    bind, edge_sampler, entry, make_edge_sampler, spec_bind, spec_entry, spec_stages, stages,
    AddressMode, BindEntry, BindGroupDesc, BindingKind, BufferDesc, BufferUse, DepthCompare,
    FilterMode, GpuFormat, LayoutEntry, Resource, ResourcePlan, SampleType, SamplerDesc,
    TextureDesc, ViewDimension,
};
use crate::gfx3d::pack::{CASTER_WORDS, MATERIAL_WORDS, OBJECT_WORDS};
use crate::gfx3d::scene::{
    CAMERA_SIZE, MAX_LIGHTS, PALETTE_BYTES, PALETTE_SIZE, SHADOW_PASS_SIZE,
};
use crate::water::surface::{make_stand_in, stand_in};
use vstd::prelude::*;

verus! {

/// Bytes of a light, and of what is packed for each draw and for each caster, on the device.
pub const LIGHT_SIZE: u64 = 64;

pub const OBJECT_SIZE: u64 = 112;

pub const MATERIAL_SIZE: u64 = 96;

pub const CASTER_SIZE: u64 = 96;

/// Bytes of all lights.
pub const LIGHTS_SIZE: u64 = 16384;

/// Positions of the layouts: what a camera binds; what plain draws and draws with bones bind for
/// themselves; the ground; a cascade; its casters; and bones alone.
pub const CAMERA_LAYOUT: usize = 0;

pub const PLAIN_LAYOUT: usize = 1;

pub const BONES_LAYOUT: usize = 2;

pub const GROUND_LAYOUT: usize = 3;

pub const CASCADE_LAYOUT: usize = 4;

pub const CASTERS_LAYOUT: usize = 5;

pub const PALETTE_LAYOUT: usize = 6;

/// Something read by the shaders that colour.
pub open spec fn seen(binding: u32, kind: BindingKind) -> LayoutEntry {
    spec_entry(binding, spec_stages(false, true, false), kind)
}

/// Something read by the shaders that place.
pub open spec fn placed(binding: u32, kind: BindingKind) -> LayoutEntry {
    spec_entry(binding, spec_stages(true, false, false), kind)
}

/// A list that is only read.
pub open spec fn listed(min_size: u64) -> BindingKind {
    BindingKind::Storage { read_only: true, min_size }
}

/// What a camera binds: itself, the shadow maps, the lights, the ground's shadows and the haze.
pub open spec fn camera_layout(mapping_size: u64) -> Seq<LayoutEntry> {
    seq![
        spec_entry(
            0,
            spec_stages(true, true, false),
            BindingKind::Uniform { dynamic: true, min_size: CAMERA_SIZE },
        ),
        seen(1, BindingKind::Texture { sample: SampleType::Depth, view: ViewDimension::D2Array }),
        seen(2, BindingKind::Sampler { comparison: true }),
        seen(3, listed(LIGHT_SIZE)),
        seen(4, BindingKind::Texture { sample: SampleType::Filterable, view: ViewDimension::D2 }),
        seen(5, BindingKind::Sampler { comparison: false }),
        seen(6, BindingKind::Uniform { dynamic: false, min_size: mapping_size }),
        seen(7, BindingKind::Texture { sample: SampleType::Filterable, view: ViewDimension::D3 }),
        seen(8, BindingKind::Sampler { comparison: false }),
    ]
}

/// All layouts.
pub open spec fn scene_layouts(mapping_size: u64, ground_size: u64) -> Seq<Seq<LayoutEntry>> {
    seq![
        camera_layout(mapping_size),
        seq![placed(0, listed(OBJECT_SIZE)), seen(1, listed(MATERIAL_SIZE))],
        seq![
            placed(0, BindingKind::Uniform { dynamic: true, min_size: PALETTE_BYTES }),
            seen(1, listed(MATERIAL_SIZE)),
        ],
        seq![
            placed(
                0,
                BindingKind::Texture { sample: SampleType::Unfilterable, view: ViewDimension::D2 },
            ),
            placed(1, BindingKind::Uniform { dynamic: false, min_size: ground_size }),
        ],
        seq![placed(0, BindingKind::Uniform { dynamic: true, min_size: SHADOW_PASS_SIZE })],
        seq![placed(0, listed(CASTER_SIZE))],
        seq![placed(0, BindingKind::Uniform { dynamic: true, min_size: PALETTE_BYTES })],
    ]
}

/// A shadow map of nothing.
pub open spec fn no_shadow() -> TextureDesc {
    TextureDesc { view: ViewDimension::D2Array, ..stand_in(GpuFormat::Depth32Float) }
}

/// How the groups that exist from the start are filled: a camera's, the buffer of cameras and
/// what others own being lent, and the ground's, which is flat until there is one.
pub open spec fn scene_groups() -> Seq<Seq<BindEntry>> {
    seq![
        seq![
            spec_bind(0, Resource::Lent),
            spec_bind(1, Resource::Texture(1)),
            spec_bind(2, Resource::Sampler(0)),
            spec_bind(3, Resource::Buffer(0)),
            spec_bind(4, Resource::Lent),
            spec_bind(5, Resource::Sampler(1)),
            spec_bind(6, Resource::Buffer(1)),
            spec_bind(7, Resource::Lent),
            spec_bind(8, Resource::Sampler(1)),
        ],
        seq![spec_bind(0, Resource::Texture(0)), spec_bind(1, Resource::Buffer(2))],
    ]
}

/// A sampler that compares depths and blends the outcomes.
pub open spec fn soft_compare_sampler() -> SamplerDesc {
    SamplerDesc { comparison: true, ..edge_sampler() }
}

fn make_seen(binding: u32, kind: BindingKind) -> (e: LayoutEntry)
    ensures
        e == seen(binding, kind),
{
    entry(binding, stages(false, true, false), kind)
}

fn make_placed(binding: u32, kind: BindingKind) -> (e: LayoutEntry)
    ensures
        e == placed(binding, kind),
{
    entry(binding, stages(true, false, false), kind)
}

fn make_listed(min_size: u64) -> (k: BindingKind)
    ensures
        k == listed(min_size),
{
    BindingKind::Storage { read_only: true, min_size }
}

fn build_camera_layout(mapping_size: u64) -> (l: Vec<LayoutEntry>)
    ensures
        l@ == camera_layout(mapping_size),
{
    let l: Vec<LayoutEntry> = vec![
        entry(
            0,
            stages(true, true, false),
            BindingKind::Uniform { dynamic: true, min_size: CAMERA_SIZE },
        ),
        make_seen(
            1,
            BindingKind::Texture { sample: SampleType::Depth, view: ViewDimension::D2Array },
        ),
        make_seen(2, BindingKind::Sampler { comparison: true }),
        make_seen(3, make_listed(LIGHT_SIZE)),
        make_seen(
            4,
            BindingKind::Texture { sample: SampleType::Filterable, view: ViewDimension::D2 },
        ),
        make_seen(5, BindingKind::Sampler { comparison: false }),
        make_seen(6, BindingKind::Uniform { dynamic: false, min_size: mapping_size }),
        make_seen(
            7,
            BindingKind::Texture { sample: SampleType::Filterable, view: ViewDimension::D3 },
        ),
        make_seen(8, BindingKind::Sampler { comparison: false }),
    ];
    proof {
        assert(l@ =~= camera_layout(mapping_size));
    }
    l
}

fn build_layouts(mapping_size: u64, ground_size: u64) -> (layouts: Vec<Vec<LayoutEntry>>)
    ensures
        layouts@.len() == 7,
        forall|l: int|
            0 <= l < 7 ==> (#[trigger] layouts@[l])@ == scene_layouts(mapping_size, ground_size)[l],
{
    let plain: Vec<LayoutEntry> = vec![
        make_placed(0, make_listed(OBJECT_SIZE)),
        make_seen(1, make_listed(MATERIAL_SIZE)),
    ];
    let bones: Vec<LayoutEntry> = vec![
        make_placed(0, BindingKind::Uniform { dynamic: true, min_size: PALETTE_BYTES }),
        make_seen(1, make_listed(MATERIAL_SIZE)),
    ];
    let ground: Vec<LayoutEntry> = vec![
        make_placed(
            0,
            BindingKind::Texture { sample: SampleType::Unfilterable, view: ViewDimension::D2 },
        ),
        make_placed(1, BindingKind::Uniform { dynamic: false, min_size: ground_size }),
    ];
    let cascade: Vec<LayoutEntry> = vec![
        make_placed(0, BindingKind::Uniform { dynamic: true, min_size: SHADOW_PASS_SIZE }),
    ];
    let casters: Vec<LayoutEntry> = vec![make_placed(0, make_listed(CASTER_SIZE))];
    let palette: Vec<LayoutEntry> = vec![
        make_placed(0, BindingKind::Uniform { dynamic: true, min_size: PALETTE_BYTES }),
    ];
    proof {
        let all = scene_layouts(mapping_size, ground_size);
        assert(plain@ =~= all[1]);
        assert(bones@ =~= all[2]);
        assert(ground@ =~= all[3]);
        assert(cascade@ =~= all[4]);
        assert(casters@ =~= all[5]);
        assert(palette@ =~= all[6]);
    }
    let mut layouts: Vec<Vec<LayoutEntry>> = Vec::new();
    layouts.push(build_camera_layout(mapping_size));
    layouts.push(plain);
    layouts.push(bones);
    layouts.push(ground);
    layouts.push(cascade);
    layouts.push(casters);
    layouts.push(palette);
    layouts
}

/// What the scene makes at its start.
pub fn scene_resources(mapping_size: u64, ground_size: u64) -> (plan: ResourcePlan)
    ensures
        plan.wf(),
        plan.buffers@ == seq![
            BufferDesc { size: LIGHTS_SIZE, usage: BufferUse::Storage },
            BufferDesc { size: mapping_size, usage: BufferUse::Uniform },
            BufferDesc { size: ground_size, usage: BufferUse::Uniform },
        ],
        plan.textures@ == seq![stand_in(GpuFormat::R32Float), no_shadow()],
        plan.samplers@ == seq![soft_compare_sampler(), edge_sampler()],
        plan.layouts@.len() == 7,
        forall|l: int|
            0 <= l < 7 ==> (#[trigger] plan.layouts@[l])@ == scene_layouts(
                mapping_size,
                ground_size,
            )[l],
        plan.groups@.len() == 2,
        plan.groups@[0].layout == CAMERA_LAYOUT,
        plan.groups@[0].entries@ == scene_groups()[0],
        plan.groups@[1].layout == GROUND_LAYOUT,
        plan.groups@[1].entries@ == scene_groups()[1],
{
    let camera: Vec<BindEntry> = vec![
        bind(0, Resource::Lent),
        bind(1, Resource::Texture(1)),
        bind(2, Resource::Sampler(0)),
        bind(3, Resource::Buffer(0)),
        bind(4, Resource::Lent),
        bind(5, Resource::Sampler(1)),
        bind(6, Resource::Buffer(1)),
        bind(7, Resource::Lent),
        bind(8, Resource::Sampler(1)),
    ];
    let ground: Vec<BindEntry> = vec![
        bind(0, Resource::Texture(0)),
        bind(1, Resource::Buffer(2)),
    ];
    proof {
        assert(camera@ =~= scene_groups()[0]);
        assert(ground@ =~= scene_groups()[1]);
    }
    let mut groups: Vec<BindGroupDesc> = Vec::new();
    groups.push(BindGroupDesc { layout: CAMERA_LAYOUT, entries: camera });
    groups.push(BindGroupDesc { layout: GROUND_LAYOUT, entries: ground });
    let mut shadow: TextureDesc = make_stand_in(GpuFormat::Depth32Float);
    shadow.view = ViewDimension::D2Array;
    let mut soft: SamplerDesc = make_edge_sampler();
    soft.comparison = true;
    let plan = ResourcePlan {
        buffers: vec![
            BufferDesc { size: LIGHTS_SIZE, usage: BufferUse::Storage },
            BufferDesc { size: mapping_size, usage: BufferUse::Uniform },
            BufferDesc { size: ground_size, usage: BufferUse::Uniform },
        ],
        textures: vec![make_stand_in(GpuFormat::R32Float), shadow],
        samplers: vec![soft, make_edge_sampler()],
        layouts: build_layouts(mapping_size, ground_size),
        groups,
    };
    proof {
        let all = scene_layouts(mapping_size, ground_size);
        assert(plan.layouts@[0]@ == all[0]);
        assert(plan.layouts@[3]@ == all[3]);
        assert(plan.fits(&plan.groups@[0]));
        assert(plan.fits(&plan.groups@[1]));
    }
    plan
}

/// There is room for all lights that are written, two hundred and fifty-six. What is packed for a
/// draw, its material and a caster is four bytes to a word; so are bone matrices, of sixteen words
/// each.
pub proof fn lights_have_room()
    ensures
        MAX_LIGHTS * LIGHT_SIZE == LIGHTS_SIZE,
        MAX_LIGHTS == 256,
        OBJECT_SIZE == 4 * OBJECT_WORDS,
        MATERIAL_SIZE == 4 * MATERIAL_WORDS,
        CASTER_SIZE == 4 * CASTER_WORDS,
        PALETTE_BYTES == 4 * 16 * PALETTE_SIZE,
{
}

/// What a pipeline binds at a place: one of the scene's layouts, a texture or a sampler.
#[derive(Clone, Copy, Debug, PartialEq, Eq, Structural)]
pub enum GroupSource {
    Scene(usize),
    Texture,
    Sampler,
}

/// What mesh pipelines bind, place by place.
pub open spec fn mesh_groups(skinned: bool) -> Seq<GroupSource> {
    seq![
        GroupSource::Scene(CAMERA_LAYOUT),
        GroupSource::Scene(
            if skinned {
                BONES_LAYOUT
            } else {
                PLAIN_LAYOUT
            },
        ),
        GroupSource::Texture,
        GroupSource::Sampler,
        GroupSource::Scene(GROUND_LAYOUT),
    ]
}

/// What mesh pipelines bind, place by place.
pub fn mesh_pipeline_groups(skinned: bool) -> (groups: Vec<GroupSource>)
    ensures
        groups@ == mesh_groups(skinned),
{
    let own: usize = if skinned {
        BONES_LAYOUT
    } else {
        PLAIN_LAYOUT
    };
    let groups: Vec<GroupSource> = vec![
        GroupSource::Scene(CAMERA_LAYOUT),
        GroupSource::Scene(own),
        GroupSource::Texture,
        GroupSource::Sampler,
        GroupSource::Scene(GROUND_LAYOUT),
    ];
    proof {
        assert(groups@ =~= mesh_groups(skinned));
    }
    groups
}

/// A pipeline that draws depth for shadows. Thin walls cast from both sides.
#[derive(Clone, Copy, Debug, PartialEq, Eq, Structural)]
pub struct ShadowPipelineDesc {
    pub skinned: bool,
    /// Texels that are see-through cast nothing; else no texture is looked at.
    pub cutout: bool,
    pub compare: DepthCompare,
    pub depth_bias: i32,
    /// The bias on steep surfaces, two and a half.
    pub slope_scale: u32,
}

/// The pipeline for casters of a kind.
pub open spec fn shadow_pipeline_of(skinned: bool, cutout: bool) -> ShadowPipelineDesc {
    ShadowPipelineDesc {
        skinned,
        cutout,
        compare: DepthCompare::LessEqual,
        depth_bias: 4,
        slope_scale: 0x4020_0000,
    }
}

/// The pipelines for casters: solid, cut out, and both again with bones.
pub fn shadow_pipelines() -> (p: Vec<ShadowPipelineDesc>)
    ensures
        p@ == seq![
            shadow_pipeline_of(false, false),
            shadow_pipeline_of(false, true),
            shadow_pipeline_of(true, false),
            shadow_pipeline_of(true, true),
        ],
{
    vec![
        make_shadow_pipeline(false, false),
        make_shadow_pipeline(false, true),
        make_shadow_pipeline(true, false),
        make_shadow_pipeline(true, true),
    ]
}

fn make_shadow_pipeline(skinned: bool, cutout: bool) -> (d: ShadowPipelineDesc)
    ensures
        d == shadow_pipeline_of(skinned, cutout),
{
    ShadowPipelineDesc {
        skinned,
        cutout,
        compare: DepthCompare::LessEqual,
        depth_bias: 4,
        slope_scale: 0x4020_0000,
    }
}

/// Which of the pipelines draws a caster.
pub fn shadow_pipeline_position(skinned: bool, cutout: bool) -> (i: usize)
    ensures
        i < 4,
        seq![
            shadow_pipeline_of(false, false),
            shadow_pipeline_of(false, true),
            shadow_pipeline_of(true, false),
            shadow_pipeline_of(true, true),
        ][i as int] == shadow_pipeline_of(skinned, cutout),
{
    match (skinned, cutout) {
        (false, false) => 0,
        (false, true) => 1,
        (true, false) => 2,
        (true, true) => 3,
    }
}

/// What shadow pipelines bind, place by place.
pub fn shadow_pipeline_groups(skinned: bool) -> (groups: Vec<GroupSource>)
    ensures
        groups@ == seq![
            GroupSource::Scene(CASCADE_LAYOUT),
            GroupSource::Scene(
                if skinned {
                    PALETTE_LAYOUT
                } else {
                    CASTERS_LAYOUT
                },
            ),
            GroupSource::Texture,
            GroupSource::Sampler,
            GroupSource::Scene(GROUND_LAYOUT),
        ],
{
    let own: usize = if skinned {
        PALETTE_LAYOUT
    } else {
        CASTERS_LAYOUT
    };
    vec![
        GroupSource::Scene(CASCADE_LAYOUT),
        GroupSource::Scene(own),
        GroupSource::Texture,
        GroupSource::Sampler,
        GroupSource::Scene(GROUND_LAYOUT),
    ]
}

/// Every layout binds its entries in the order of their numbers, one of each, for shaders that
/// draw; and lists are only read.
pub proof fn bindings_are_in_order(mapping_size: u64, ground_size: u64, l: int, e: int)
    requires
        0 <= l < scene_layouts(mapping_size, ground_size).len(),
        0 <= e < scene_layouts(mapping_size, ground_size)[l].len(),
    ensures
        ({
            let entry = scene_layouts(mapping_size, ground_size)[l][e];
            &&& scene_layouts(mapping_size, ground_size).len() == 7
            &&& entry.binding == e
            &&& entry.count == 0
            &&& !entry.stages.compute
            &&& entry.stages.vertex || entry.stages.fragment
            &&& entry.kind matches BindingKind::Storage { read_only, .. } ==> read_only
            &&& !(entry.kind is StorageTexture)
        }),
{
}

/// Cameras, bones and cascades are found at an offset, and everything else is bound whole. Bindings
/// are as large as what is packed for them.
pub proof fn bindings_have_room(mapping_size: u64, ground_size: u64)
    ensures
        ({
            let all = scene_layouts(mapping_size, ground_size);
            let moving = |l: int, size: u64|
                all[l][0].kind == BindingKind::Uniform { dynamic: true, min_size: size }
                    && all[l][0].stages.vertex;
            let fixed = |l: int, b: int, size: u64|
                all[l][b].kind == BindingKind::Uniform { dynamic: false, min_size: size };
            let list = |l: int, b: int, size: u64|
                all[l][b].kind == BindingKind::Storage { read_only: true, min_size: size };
            &&& moving(CAMERA_LAYOUT as int, 576) && all[CAMERA_LAYOUT as int][0].stages.fragment
            &&& list(CAMERA_LAYOUT as int, 3, 64)
            &&& fixed(CAMERA_LAYOUT as int, 6, mapping_size)
            &&& list(PLAIN_LAYOUT as int, 0, 112) && all[PLAIN_LAYOUT as int][0].stages.vertex
            &&& list(PLAIN_LAYOUT as int, 1, 96) && all[PLAIN_LAYOUT as int][1].stages.fragment
            &&& moving(BONES_LAYOUT as int, 8192)
            &&& list(BONES_LAYOUT as int, 1, 96) && all[BONES_LAYOUT as int][1].stages.fragment
            &&& fixed(GROUND_LAYOUT as int, 1, ground_size)
            &&& moving(CASCADE_LAYOUT as int, 80)
            &&& list(CASTERS_LAYOUT as int, 0, 96) && all[CASTERS_LAYOUT as int][0].stages.vertex
            &&& moving(PALETTE_LAYOUT as int, 8192)
        }),
{
}

/// Shadow maps are compared and blended; everything else is read with a sampler that does not
/// compare.
pub proof fn shadow_maps_are_compared(mapping_size: u64)
    ensures
        ({
            let l = camera_layout(mapping_size);
            &&& l.len() == 9
            &&& l[1].kind == BindingKind::Texture {
                sample: SampleType::Depth,
                view: ViewDimension::D2Array,
            }
            &&& l[2].kind == BindingKind::Sampler { comparison: true }
            &&& l[4].kind == BindingKind::Texture {
                sample: SampleType::Filterable,
                view: ViewDimension::D2,
            }
            &&& l[5].kind == BindingKind::Sampler { comparison: false }
            &&& l[7].kind == BindingKind::Texture {
                sample: SampleType::Filterable,
                view: ViewDimension::D3,
            }
            &&& l[8].kind == BindingKind::Sampler { comparison: false }
            &&& no_shadow().format == GpuFormat::Depth32Float
            &&& no_shadow().view == ViewDimension::D2Array
            &&& no_shadow().width == 1 && no_shadow().height == 1 && no_shadow().layers == 1
            &&& no_shadow().usage.sampled
            &&& soft_compare_sampler().comparison
            &&& soft_compare_sampler().filter == FilterMode::Linear
            &&& soft_compare_sampler().address_u == AddressMode::ClampToEdge
            &&& soft_compare_sampler().address_v == AddressMode::ClampToEdge
        }),
{
}

/// A mesh pipeline binds a camera, then instances or bones, and the ground last; with bones exactly
/// if it moves vertices with them.
pub proof fn pipelines_bind_what_they_read(skinned: bool)
    ensures
        ({
            let g = mesh_groups(skinned);
            &&& g.len() == 5
            &&& g[0] == GroupSource::Scene(CAMERA_LAYOUT)
            &&& skinned <==> g[1] == GroupSource::Scene(BONES_LAYOUT)
            &&& !skinned <==> g[1] == GroupSource::Scene(PLAIN_LAYOUT)
            &&& g[2] == GroupSource::Texture
            &&& g[3] == GroupSource::Sampler
            &&& g[4] == GroupSource::Scene(GROUND_LAYOUT)
        }),
{
}

/// The pipeline for casters of a kind has bones and cuts out exactly if they do; in a shadow map
/// nearer is smaller, and depths are pushed away from the light.
pub proof fn shadows_are_cast_as_asked(skinned: bool, cutout: bool)
    ensures
        ({
            let p = shadow_pipeline_of(skinned, cutout);
            &&& p.skinned == skinned
            &&& p.cutout == cutout
            &&& p.compare == DepthCompare::LessEqual
            &&& p.depth_bias == 4
            &&& p.slope_scale == 0x4020_0000
        }),
{
}

/// A camera is bound with the stand-in for shadow maps and the sampler that compares them, the
/// lights, and the mapping of the ground's shadows, everything else being lent or read at the edge;
/// the ground is bound with the stand-in for heights.
pub proof fn cameras_have_stand_ins(b: int)
    requires
        0 <= b < 9,
    ensures
        ({
            let (camera, ground) = (scene_groups()[0], scene_groups()[1]);
            &&& scene_groups().len() == 2
            &&& camera.len() == 9 && ground.len() == 2
            &&& camera[b].binding == b
            &&& camera[b].resource == Resource::Texture(1) <==> b == 1
            &&& camera[b].resource == Resource::Sampler(0) <==> b == 2
            &&& camera[b].resource == Resource::Buffer(0) <==> b == 3
            &&& camera[b].resource == Resource::Sampler(1) <==> b == 5 || b == 8
            &&& camera[b].resource == Resource::Buffer(1) <==> b == 6
            &&& camera[b].resource == Resource::Lent <==> b == 0 || b == 4 || b == 7
            &&& ground[0].binding == 0 && ground[0].resource == Resource::Texture(0)
            &&& ground[1].binding == 1 && ground[1].resource == Resource::Buffer(2)
        }),
{
}

} // verus!
