use crate::bits::{
    clamp, clamp_is_idempotent_and_bounded, clamping_keeps_what_is_within, eq, float_clamp,
    float_eq, is_bounded, ONE,
};
use crate::desc::{
    bind, entry, spec_bind, spec_entry, spec_stages, stages, BindEntry, BindGroupDesc, BindingKind,
    BufferDesc, BufferUse, ColorTarget, DepthCompare, DepthDesc, GpuFormat, LayoutEntry,
    RenderPipelineDesc, Resource, ResourcePlan, SampleType, TextureDesc, ViewDimension,
};
use crate::startup::{flag, flag_of};
use crate::terrain::{filled_texture, make_filled_texture};
use vstd::prelude::*;

verus! {

/// Places along each side of the near, middle and far field.
pub const GRID_DIM: u32 = 512;

pub const MID_GRID_DIM: u32 = 384;

pub const FAR_GRID_DIM: u32 = 384;

/// Bytes of a blade on the device.
pub const GRASS_INSTANCE_SIZE: u64 = 16;

/// Places along each side that one workgroup looks at.
pub const GRASS_GROUP: u32 = 8;

/// How the caller wants grass, as bit patterns.
#[derive(Debug)]
pub struct WgrGrassParams {
    pub density: u32,
    pub spacing: u32,
    pub near_radius: u32,
    pub enabled: u32,
    pub blade_height: u32,
    pub wind_strength: u32,
    pub wind_direction: u32,
    pub far_radius: u32,
    pub interactor_x: u32,
    pub interactor_z: u32,
    pub interactor_radius: u32,
    pub interactor_strength: u32,
    /// Where something went: across, along, how wide, how long ago.
    pub tracks: Vec<[u32; 4]>,
    pub debug_ignore_geography_exclusions: u32,
}

/// What a pass draws.
#[derive(Clone, Copy, Debug, PartialEq, Eq, Structural)]
pub enum GrassPass {
    Color,
    /// Colour over depth that is complete.
    ColorNoWrite,
    /// Depth and normals.
    Prepass,
}

/// How far away a field of grass is.
#[derive(Clone, Copy, Debug, PartialEq, Eq, Structural)]
pub enum GrassLevel {
    Near,
    Mid,
    Far,
}

/// Grass on the ground.
#[derive(Clone, Copy, Debug, PartialEq, Eq, Structural)]
pub struct Grass {
    pub enabled: bool,
    /// The generation of the height map that is bound; the stand-in at first.
    pub terrain_generation: u64,
    pub have_heightmap: bool,
}

/// The bounds that parameters are kept in.
pub const SPACING_MIN: u32 = 0x3dcc_cccd;

pub const SPACING_MAX: u32 = 0x3f40_0000;

pub const RADIUS_MIN: u32 = 0x4100_0000;

pub const NEAR_RADIUS_MAX: u32 = 0x4300_0000;

pub const FAR_RADIUS_MAX: u32 = 0x459c_4000;

pub const BLADE_MIN: u32 = 0x3dcc_cccd;

pub const THREE: u32 = 0x4040_0000;

pub const INTERACTOR_MAX: u32 = 0x4180_0000;

/// What grass starts with, unless told otherwise: nearly everywhere, a quarter metre apart, fifty
/// metres around.
pub const FIRST_DENSITY: u32 = 0x3f7d_70a4;

pub const FIRST_SPACING: u32 = 0x3e80_0000;

pub const FIRST_RADIUS: u32 = 0x4248_0000;

pub const FIRST_RADIUS_MAX: u32 = 0x4270_0000;

pub const FIRST_WIND: u32 = 0x3f40_0000;

/// The parameters kept within their bounds.
pub open spec fn kept_within(p: &WgrGrassParams, q: &WgrGrassParams) -> bool {
    &&& q.density == float_clamp(p.density, 0, ONE)
    &&& q.spacing == float_clamp(p.spacing, SPACING_MIN, SPACING_MAX)
    &&& q.near_radius == float_clamp(p.near_radius, RADIUS_MIN, NEAR_RADIUS_MAX)
    &&& q.enabled == if float_eq(p.enabled, 0) {
        0
    } else {
        ONE
    }
    &&& q.blade_height == float_clamp(p.blade_height, BLADE_MIN, THREE)
    &&& q.wind_strength == float_clamp(p.wind_strength, 0, THREE)
    &&& q.wind_direction == p.wind_direction
    &&& q.far_radius == float_clamp(p.far_radius, RADIUS_MIN, FAR_RADIUS_MAX)
    &&& q.interactor_x == p.interactor_x
    &&& q.interactor_z == p.interactor_z
    &&& q.interactor_radius == float_clamp(p.interactor_radius, 0, INTERACTOR_MAX)
    &&& q.interactor_strength == float_clamp(p.interactor_strength, 0, ONE)
    &&& q.tracks@ == p.tracks@
    &&& q.debug_ignore_geography_exclusions == p.debug_ignore_geography_exclusions
}

/// Places along each side of a field.
pub open spec fn dim_of(level: GrassLevel) -> u32 {
    match level {
        GrassLevel::Near => GRID_DIM,
        GrassLevel::Mid => MID_GRID_DIM,
        GrassLevel::Far => FAR_GRID_DIM,
    }
}

/// Corners of the triangles of a blade: two crossed ribbons of five pieces, of two, or a single
/// triangle.
pub open spec fn corners_of(level: GrassLevel) -> u32 {
    match level {
        GrassLevel::Near => 60,
        GrassLevel::Mid => 24,
        GrassLevel::Far => 3,
    }
}

impl Grass {
    /// Grass as it starts, and the parameters to upload. `tracks` is how many tracks there are.
    pub fn new(
        switch: Option<&str>,
        density: Option<u32>,
        distance: Option<u32>,
        tracks: usize,
    ) -> (r: (Grass, WgrGrassParams))
        ensures
            r.0 == (Grass {
                enabled: flag_of(switch, true),
                terrain_generation: u64::MAX,
                have_heightmap: false,
            }),
            r.1.density == float_clamp(
                match density {
                    Some(d) => d,
                    None => FIRST_DENSITY,
                },
                0,
                ONE,
            ),
            r.1.near_radius == float_clamp(
                match distance {
                    Some(d) => d,
                    None => FIRST_RADIUS,
                },
                RADIUS_MIN,
                FIRST_RADIUS_MAX,
            ),
            r.1.far_radius == r.1.near_radius,
            r.1.spacing == FIRST_SPACING,
            r.1.enabled == if flag_of(switch, true) {
                ONE
            } else {
                0
            },
            r.1.blade_height == ONE,
            r.1.wind_strength == FIRST_WIND,
            r.1.wind_direction == 0,
            r.1.interactor_x == 0,
            r.1.interactor_z == 0,
            r.1.interactor_radius == 0,
            r.1.interactor_strength == 0,
            r.1.tracks@.len() == tracks,
            forall|i: int| 0 <= i < tracks ==> (#[trigger] r.1.tracks@[i])@ == seq![0u32, 0, 0, 0],
            r.1.debug_ignore_geography_exclusions == 0,
    {
        let enabled: bool = flag(switch, true);
        let wanted: u32 = match density {
            Some(d) => d,
            None => FIRST_DENSITY,
        };
        let around: u32 = match distance {
            Some(d) => d,
            None => FIRST_RADIUS,
        };
        let radius: u32 = clamp(around, RADIUS_MIN, FIRST_RADIUS_MAX);
        let mut none: Vec<[u32; 4]> = Vec::new();
        let mut i: usize = 0;
        while i < tracks
            invariant
                i <= tracks,
                none@.len() == i,
                forall|k: int| 0 <= k < i ==> (#[trigger] none@[k])@ == seq![0u32, 0, 0, 0],
            decreases tracks - i,
        {
            none.push([0, 0, 0, 0]);
            i = i + 1;
        }
        let grass = Grass { enabled, terrain_generation: u64::MAX, have_heightmap: false };
        let params = WgrGrassParams {
            density: clamp(wanted, 0, ONE),
            spacing: FIRST_SPACING,
            near_radius: radius,
            enabled: if enabled {
                ONE
            } else {
                0
            },
            blade_height: ONE,
            wind_strength: FIRST_WIND,
            wind_direction: 0,
            far_radius: radius,
            interactor_x: 0,
            interactor_z: 0,
            interactor_radius: 0,
            interactor_strength: 0,
            tracks: none,
            debug_ignore_geography_exclusions: 0,
        };
        (grass, params)
    }

    /// Loads the map of where grass grows; one without extent or with too few values is left
    /// alone.
    pub fn set_geography(&self, width: u32, height: u32, values: usize) -> (up: Option<
        (TextureDesc, u32, usize),
    >)
        requires
            width != 0 && height != 0 && width * height <= values ==> width * 4 <= u32::MAX,
        ensures
            up == if width != 0 && height != 0 && width * height <= values {
                Some(
                    (
                        filled_texture(width, height, GpuFormat::R32Uint),
                        (width * 4) as u32,
                        (width * height) as usize,
                    ),
                )
            } else {
                None
            },
    {
        if width == 0 || height == 0 {
            return None;
        }
        proof {
            assert(width * height <= 0xffff_ffff * 0xffff_ffff) by (nonlinear_arith)
                requires
                    width <= 0xffff_ffff,
                    height <= 0xffff_ffff,
            ;
        }
        let texels: u64 = width as u64 * height as u64;
        if (values as u64) < texels {
            return None;
        }
        Some(
            (
                make_filled_texture(width, height, GpuFormat::R32Uint),
                width * 4,
                texels as usize,
            ),
        )
    }

    /// Takes new parameters: what is to be uploaded.
    pub fn set_params(&mut self, params: WgrGrassParams) -> (kept: WgrGrassParams)
        ensures
            kept_within(&params, &kept),
            *final(self) == (Grass { enabled: !float_eq(params.enabled, 0), ..*old(self) }),
    {
        let enabled: bool = !eq(params.enabled, 0);
        self.enabled = enabled;
        WgrGrassParams {
            density: clamp(params.density, 0, ONE),
            spacing: clamp(params.spacing, SPACING_MIN, SPACING_MAX),
            near_radius: clamp(params.near_radius, RADIUS_MIN, NEAR_RADIUS_MAX),
            enabled: if enabled {
                ONE
            } else {
                0
            },
            blade_height: clamp(params.blade_height, BLADE_MIN, THREE),
            wind_strength: clamp(params.wind_strength, 0, THREE),
            wind_direction: params.wind_direction,
            far_radius: clamp(params.far_radius, RADIUS_MIN, FAR_RADIUS_MAX),
            interactor_x: params.interactor_x,
            interactor_z: params.interactor_z,
            interactor_radius: clamp(params.interactor_radius, 0, INTERACTOR_MAX),
            interactor_strength: clamp(params.interactor_strength, 0, ONE),
            tracks: params.tracks,
            debug_ignore_geography_exclusions: params.debug_ignore_geography_exclusions,
        }
    }

    /// Looks at the ground: true if the group has to be filled with its new height map.
    pub fn prepare_terrain(&mut self, has_heightmap: bool, heightmap_gen: u64) -> (rebind: bool)
        ensures
            rebind == (old(self).terrain_generation != heightmap_gen),
            *final(self) == (Grass {
                enabled: old(self).enabled,
                terrain_generation: heightmap_gen,
                have_heightmap: has_heightmap,
            }),
    {
        self.have_heightmap = has_heightmap;
        if self.terrain_generation != heightmap_gen {
            self.terrain_generation = heightmap_gen;
            true
        } else {
            false
        }
    }

    /// There is grass to be seen.
    pub open spec fn shows(&self) -> bool {
        self.enabled && self.have_heightmap
    }

    /// The fields to be planted, and how many workgroups along each side plant them. The number
    /// of blades is copied into the arguments of the draws after.
    pub fn dispatch(&self) -> (places: Vec<(GrassLevel, u32)>)
        ensures
            places@ == if self.shows() {
                seq![
                    (GrassLevel::Near, GRID_DIM / GRASS_GROUP),
                    (GrassLevel::Mid, MID_GRID_DIM / GRASS_GROUP),
                    (GrassLevel::Far, FAR_GRID_DIM / GRASS_GROUP),
                ]
            } else {
                Seq::empty()
            },
    {
        if !self.enabled || !self.have_heightmap {
            return Vec::new();
        }
        vec![
            (GrassLevel::Near, GRID_DIM / GRASS_GROUP),
            (GrassLevel::Mid, MID_GRID_DIM / GRASS_GROUP),
            (GrassLevel::Far, FAR_GRID_DIM / GRASS_GROUP),
        ]
    }

    /// The arguments of a field's draw before anything is planted.
    pub fn reset_indirect(&self, level: GrassLevel) -> (args: [u32; 4])
        ensures
            args@ == seq![corners_of(level), 0, 0, 0],
    {
        match level {
            GrassLevel::Near => [60, 0, 0, 0],
            GrassLevel::Mid => [24, 0, 0, 0],
            GrassLevel::Far => [3, 0, 0, 0],
        }
    }

    /// The fields that a pass draws, in order: the far one only in colour, and before the others.
    pub fn draw(&self, kind: GrassPass) -> (levels: Vec<GrassLevel>)
        ensures
            levels@ == if !self.shows() {
                Seq::empty()
            } else if kind == GrassPass::Prepass {
                seq![GrassLevel::Mid, GrassLevel::Near]
            } else {
                seq![GrassLevel::Far, GrassLevel::Mid, GrassLevel::Near]
            },
    {
        if !self.enabled || !self.have_heightmap {
            return Vec::new();
        }
        match kind {
            GrassPass::Prepass => vec![GrassLevel::Mid, GrassLevel::Near],
            _ => vec![GrassLevel::Far, GrassLevel::Mid, GrassLevel::Near],
        }
    }
}

/// Keeping parameters within their bounds twice is keeping them once.
pub proof fn kept_parameters_stay(p: WgrGrassParams, q: WgrGrassParams, r: WgrGrassParams)
    requires
        kept_within(&p, &q),
        kept_within(&q, &r),
    ensures
        r.density == q.density,
        r.spacing == q.spacing,
        r.near_radius == q.near_radius,
        r.enabled == q.enabled,
        r.blade_height == q.blade_height,
        r.wind_strength == q.wind_strength,
        r.wind_direction == q.wind_direction,
        r.far_radius == q.far_radius,
        r.interactor_x == q.interactor_x,
        r.interactor_z == q.interactor_z,
        r.interactor_radius == q.interactor_radius,
        r.interactor_strength == q.interactor_strength,
        r.tracks@ == q.tracks@,
        r.debug_ignore_geography_exclusions == q.debug_ignore_geography_exclusions,
{
    clamp_is_idempotent_and_bounded(p.density, 0, ONE);
    clamp_is_idempotent_and_bounded(p.spacing, SPACING_MIN, SPACING_MAX);
    clamp_is_idempotent_and_bounded(p.near_radius, RADIUS_MIN, NEAR_RADIUS_MAX);
    clamp_is_idempotent_and_bounded(p.blade_height, BLADE_MIN, THREE);
    clamp_is_idempotent_and_bounded(p.wind_strength, 0, THREE);
    clamp_is_idempotent_and_bounded(p.far_radius, RADIUS_MIN, FAR_RADIUS_MAX);
    clamp_is_idempotent_and_bounded(p.interactor_radius, 0, INTERACTOR_MAX);
    clamp_is_idempotent_and_bounded(p.interactor_strength, 0, ONE);
}

/// How a field is drawn in a pass, if it is: from both sides, far grass never hiding anything.
pub open spec fn pipeline_for(level: GrassLevel, kind: GrassPass) -> Option<RenderPipelineDesc> {
    if level == GrassLevel::Far && kind == GrassPass::Prepass {
        None
    } else {
        Some(
            RenderPipelineDesc {
                target: if kind == GrassPass::Prepass {
                    ColorTarget::Normals
                } else {
                    ColorTarget::Scene
                },
                blend: None,
                depth: Some(
                    DepthDesc {
                        write: level != GrassLevel::Far && kind != GrassPass::ColorNoWrite,
                        compare: DepthCompare::GreaterEqual,
                    },
                ),
                cull_back: false,
                linear: false,
            },
        )
    }
}

/// How a field is drawn in a pass, if it is.
pub fn grass_pipeline(level: GrassLevel, kind: GrassPass) -> (p: Option<RenderPipelineDesc>)
    ensures
        p == pipeline_for(level, kind),
{
    let far: bool = level == GrassLevel::Far;
    let prepass: bool = kind == GrassPass::Prepass;
    if far && prepass {
        return None;
    }
    Some(
        RenderPipelineDesc {
            target: if prepass {
                ColorTarget::Normals
            } else {
                ColorTarget::Scene
            },
            blend: None,
            depth: Some(
                DepthDesc {
                    write: !far && kind != GrassPass::ColorNoWrite,
                    compare: DepthCompare::GreaterEqual,
                },
            ),
            cull_back: false,
            linear: false,
        },
    )
}

/// The buffer of a field's blades.
pub open spec fn blades_of(level: GrassLevel) -> int {
    match level {
        GrassLevel::Near => 2,
        GrassLevel::Mid => 3,
        GrassLevel::Far => 4,
    }
}

/// The buffers: parameters of ground and grass; for each field its blades, their number, and the
/// arguments of its draw.
pub open spec fn grass_buffers(terrain_params_size: u64, grass_params_size: u64) -> Seq<
    BufferDesc,
> {
    seq![
        BufferDesc { size: terrain_params_size, usage: BufferUse::Uniform },
        BufferDesc { size: grass_params_size, usage: BufferUse::Uniform },
        BufferDesc { size: 4194304, usage: BufferUse::Storage },
        BufferDesc { size: 2359296, usage: BufferUse::Storage },
        BufferDesc { size: 2359296, usage: BufferUse::Storage },
        BufferDesc { size: 16, usage: BufferUse::Counter },
        BufferDesc { size: 16, usage: BufferUse::Counter },
        BufferDesc { size: 16, usage: BufferUse::Counter },
        BufferDesc { size: 16, usage: BufferUse::Arguments },
        BufferDesc { size: 16, usage: BufferUse::Arguments },
        BufferDesc { size: 16, usage: BufferUse::Arguments },
    ]
}

/// Every place that a field may be planted in has room for a blade: five hundred and twelve places
/// along each side near by, three hundred and eighty-four farther away, planted eight by eight.
pub proof fn every_blade_has_room(level: GrassLevel, t: u64, g: u64)
    ensures
        dim_of(level) * dim_of(level) * GRASS_INSTANCE_SIZE == grass_buffers(t, g)[blades_of(
            level,
        )].size,
        dim_of(level) % GRASS_GROUP == 0,
        level == GrassLevel::Near <==> dim_of(level) == 512,
        level != GrassLevel::Near <==> dim_of(level) == 384,
        GRASS_GROUP == 8,
{
    let d = dim_of(level) as int;
    assert(d == 512 ==> d * d * 16 == 4194304) by (nonlinear_arith);
    assert(d == 384 ==> d * d * 16 == 2359296) by (nonlinear_arith);
}

/// What placing and drawing read of the ground.
pub open spec fn grass_terrain_layout(terrain_params_size: u64) -> Seq<LayoutEntry> {
    seq![
        spec_entry(
            0,
            spec_stages(true, false, true),
            BindingKind::Uniform { dynamic: false, min_size: terrain_params_size },
        ),
        spec_entry(
            1,
            spec_stages(true, false, true),
            BindingKind::Texture { sample: SampleType::Unfilterable, view: ViewDimension::D2 },
        ),
        spec_entry(
            2,
            spec_stages(false, false, true),
            BindingKind::Texture { sample: SampleType::Uint, view: ViewDimension::D2 },
        ),
    ]
}

/// What a field binds: the parameters, its blades, and their number.
pub open spec fn grass_data_layout(grass_params_size: u64) -> Seq<LayoutEntry> {
    seq![
        spec_entry(
            0,
            spec_stages(true, true, true),
            BindingKind::Uniform { dynamic: false, min_size: grass_params_size },
        ),
        spec_entry(
            1,
            spec_stages(true, false, true),
            BindingKind::Storage { read_only: false, min_size: GRASS_INSTANCE_SIZE },
        ),
        spec_entry(
            2,
            spec_stages(false, false, true),
            BindingKind::Storage { read_only: false, min_size: 16 },
        ),
    ]
}

/// How the groups are filled: the ground, then the fields from near to far.
pub open spec fn grass_group(g: int) -> Seq<BindEntry> {
    if g == 0 {
        seq![
            spec_bind(0, Resource::Buffer(0)),
            spec_bind(1, Resource::Texture(0)),
            spec_bind(2, Resource::Texture(1)),
        ]
    } else {
        seq![
            spec_bind(0, Resource::Buffer(1)),
            spec_bind(1, Resource::Buffer((1 + g) as usize)),
            spec_bind(2, Resource::Buffer((4 + g) as usize)),
        ]
    }
}

fn data_group(g: usize) -> (group: BindGroupDesc)
    requires
        1 <= g <= 3,
    ensures
        group.layout == 1,
        group.entries@ == grass_group(g as int),
{
    let blades: usize = 1 + g;
    let number: usize = 4 + g;
    BindGroupDesc {
        layout: 1,
        entries: vec![
            bind(0, Resource::Buffer(1)),
            bind(1, Resource::Buffer(blades)),
            bind(2, Resource::Buffer(number)),
        ],
    }
}

/// What grass makes at its start.
pub fn grass_resources(terrain_params_size: u64, grass_params_size: u64) -> (plan: ResourcePlan)
    ensures
        plan.wf(),
        plan.buffers@ == grass_buffers(terrain_params_size, grass_params_size),
        plan.textures@ == seq![
            filled_texture(1, 1, GpuFormat::R32Float),
            filled_texture(1, 1, GpuFormat::R32Uint),
        ],
        plan.samplers@.len() == 0,
        plan.layouts@.len() == 2,
        plan.layouts@[0]@ == grass_terrain_layout(terrain_params_size),
        plan.layouts@[1]@ == grass_data_layout(grass_params_size),
        plan.groups@.len() == 4,
        forall|g: int|
            0 <= g < 4 ==> (#[trigger] plan.groups@[g]).entries@ == grass_group(g)
                && plan.groups@[g].layout == if g == 0 {
                0int
            } else {
                1
            },
{
    let ground: Vec<LayoutEntry> = vec![
        entry(
            0,
            stages(true, false, true),
            BindingKind::Uniform { dynamic: false, min_size: terrain_params_size },
        ),
        entry(
            1,
            stages(true, false, true),
            BindingKind::Texture { sample: SampleType::Unfilterable, view: ViewDimension::D2 },
        ),
        entry(
            2,
            stages(false, false, true),
            BindingKind::Texture { sample: SampleType::Uint, view: ViewDimension::D2 },
        ),
    ];
    let data: Vec<LayoutEntry> = vec![
        entry(
            0,
            stages(true, true, true),
            BindingKind::Uniform { dynamic: false, min_size: grass_params_size },
        ),
        entry(
            1,
            stages(true, false, true),
            BindingKind::Storage { read_only: false, min_size: GRASS_INSTANCE_SIZE },
        ),
        entry(
            2,
            stages(false, false, true),
            BindingKind::Storage { read_only: false, min_size: 16 },
        ),
    ];
    proof {
        assert(ground@ =~= grass_terrain_layout(terrain_params_size));
        assert(data@ =~= grass_data_layout(grass_params_size));
    }
    let mut layouts: Vec<Vec<LayoutEntry>> = Vec::new();
    layouts.push(ground);
    layouts.push(data);
    let ground_group: Vec<BindEntry> = vec![
        bind(0, Resource::Buffer(0)),
        bind(1, Resource::Texture(0)),
        bind(2, Resource::Texture(1)),
    ];
    proof {
        assert(ground_group@ =~= grass_group(0));
    }
    let mut groups: Vec<BindGroupDesc> = Vec::new();
    groups.push(BindGroupDesc { layout: 0, entries: ground_group });
    groups.push(data_group(1));
    groups.push(data_group(2));
    groups.push(data_group(3));
    let buffers: Vec<BufferDesc> = vec![
        BufferDesc { size: terrain_params_size, usage: BufferUse::Uniform },
        BufferDesc { size: grass_params_size, usage: BufferUse::Uniform },
        BufferDesc { size: 4194304, usage: BufferUse::Storage },
        BufferDesc { size: 2359296, usage: BufferUse::Storage },
        BufferDesc { size: 2359296, usage: BufferUse::Storage },
        BufferDesc { size: 16, usage: BufferUse::Counter },
        BufferDesc { size: 16, usage: BufferUse::Counter },
        BufferDesc { size: 16, usage: BufferUse::Counter },
        BufferDesc { size: 16, usage: BufferUse::Arguments },
        BufferDesc { size: 16, usage: BufferUse::Arguments },
        BufferDesc { size: 16, usage: BufferUse::Arguments },
    ];
    proof {
        assert(buffers@ =~= grass_buffers(terrain_params_size, grass_params_size));
    }
    ResourcePlan {
        buffers,
        textures: vec![
            make_filled_texture(1, 1, GpuFormat::R32Float),
            make_filled_texture(1, 1, GpuFormat::R32Uint),
        ],
        samplers: Vec::new(),
        layouts,
        groups,
    }
}

/// Every parameter of grass is kept within bounds of its own: how much of it there is, from none to
/// all; a tenth to three quarters of a metre apart; eight to a hundred and twenty-eight metres
/// around, or to five thousand where it is far; a tenth to three metres high; in a wind of up to
/// three; and trodden down up to sixteen metres around, by as much as all. Where it blows, where it
/// is trodden, and the tracks stay as they are; and it is on unless it is zero.
pub proof fn parameters_are_bounded(p: WgrGrassParams, q: WgrGrassParams)
    requires
        kept_within(&p, &q),
    ensures
        is_bounded(p.density, q.density, 0, 0x3f80_0000),
        is_bounded(p.spacing, q.spacing, 0x3dcc_cccd, 0x3f40_0000),
        is_bounded(p.near_radius, q.near_radius, 0x4100_0000, 0x4300_0000),
        is_bounded(p.far_radius, q.far_radius, 0x4100_0000, 0x459c_4000),
        is_bounded(p.blade_height, q.blade_height, 0x3dcc_cccd, 0x4040_0000),
        is_bounded(p.wind_strength, q.wind_strength, 0, 0x4040_0000),
        is_bounded(p.interactor_radius, q.interactor_radius, 0, 0x4180_0000),
        is_bounded(p.interactor_strength, q.interactor_strength, 0, 0x3f80_0000),
        q.wind_direction == p.wind_direction,
        q.interactor_x == p.interactor_x,
        q.interactor_z == p.interactor_z,
        q.tracks@ == p.tracks@,
        q.debug_ignore_geography_exclusions == p.debug_ignore_geography_exclusions,
        q.enabled == 0 <==> p.enabled == 0 || p.enabled == 0x8000_0000,
        q.enabled == 0 || q.enabled == 0x3f80_0000,
{
    clamping_keeps_what_is_within(p.density, 0, ONE);
    clamping_keeps_what_is_within(p.spacing, SPACING_MIN, SPACING_MAX);
    clamping_keeps_what_is_within(p.near_radius, RADIUS_MIN, NEAR_RADIUS_MAX);
    clamping_keeps_what_is_within(p.far_radius, RADIUS_MIN, FAR_RADIUS_MAX);
    clamping_keeps_what_is_within(p.blade_height, BLADE_MIN, THREE);
    clamping_keeps_what_is_within(p.wind_strength, 0, THREE);
    clamping_keeps_what_is_within(p.interactor_radius, 0, INTERACTOR_MAX);
    clamping_keeps_what_is_within(p.interactor_strength, 0, ONE);
}

/// Grass shows if it is on and there is ground for it. Ahead of the frame only depth and normals
/// of near grass are drawn; far grass never hides anything, and neither does grass over depth that
/// is complete. What hides grass is nearer.
pub proof fn grass_hides_what_is_behind_it(g: Grass, level: GrassLevel, kind: GrassPass)
    ensures
        g.shows() <==> g.enabled && g.have_heightmap,
        pipeline_for(level, kind) is None <==> level == GrassLevel::Far && kind
            == GrassPass::Prepass,
        pipeline_for(level, kind) matches Some(p) ==> {
            &&& p.target == ColorTarget::Normals <==> kind == GrassPass::Prepass
            &&& p.blend is None
            &&& !p.cull_back
            &&& p.depth matches Some(d) && d.compare == DepthCompare::GreaterEqual && (d.write
                <==> level != GrassLevel::Far && kind != GrassPass::ColorNoWrite)
        },
{
}

/// A blade is of whole triangles: near, two ribbons of five pieces, each of two triangles; in the
/// middle, two of two; far away, one triangle.
pub proof fn blades_are_whole(level: GrassLevel)
    ensures
        corners_of(level) % 3 == 0,
        level == GrassLevel::Near ==> corners_of(level) == 2 * 5 * 2 * 3,
        level == GrassLevel::Mid ==> corners_of(level) == 2 * 2 * 2 * 3,
        level == GrassLevel::Far ==> corners_of(level) == 3,
{
}

/// Each field is bound with its own blades and their own number, and with the parameters of grass;
/// no two fields share them.
pub proof fn fields_keep_to_themselves(g: int, h: int, t: u64, s: u64)
    requires
        1 <= g <= 3,
        1 <= h <= 3,
    ensures
        ({
            let (mine, others) = (grass_group(g), grass_group(h));
            let all = grass_buffers(t, s);
            &&& all.len() == 11
            &&& mine.len() == 3
            &&& mine[0].resource == Resource::Buffer(1)
            &&& mine[1].resource matches Resource::Buffer(b) && 2 <= b <= 4
            &&& mine[2].resource matches Resource::Buffer(n) && 5 <= n <= 7
            &&& g != h ==> mine[1].resource != others[1].resource && mine[2].resource
                != others[2].resource
            &&& forall|b: int|
                0 <= b < 3 ==> (#[trigger] mine[b]).binding == b
            &&& forall|b: int|
                0 <= b < 11 ==> ((#[trigger] all[b]).usage == BufferUse::Uniform <==> b < 2) && (
                all[b].usage == BufferUse::Storage <==> 2 <= b < 5) && (all[b].usage
                    == BufferUse::Counter <==> 5 <= b < 8) && (all[b].usage == BufferUse::Arguments
                    <==> 8 <= b)
            &&& all[0].size == t && all[1].size == s
            &&& forall|b: int| 5 <= b < 11 ==> (#[trigger] all[b]).size == 16
        }),
{
}

/// Bindings are in the order of their numbers. Grass is planted by shaders that compute; they read
/// the ground and where grass grows, and write blades and their number. Drawing reads the ground
/// and the blades.
pub proof fn grass_is_bound_in_order(t: u64, g: u64, b: int)
    requires
        0 <= b < 3,
    ensures
        ({
            let (ground, data) = (grass_terrain_layout(t), grass_data_layout(g));
            &&& ground.len() == 3 && data.len() == 3
            &&& ground[b].binding == b && data[b].binding == b
            &&& ground[b].count == 0 && data[b].count == 0
            &&& ground[b].stages.compute && data[b].stages.compute
            &&& ground[b].stages.vertex <==> b < 2
            &&& data[b].stages.vertex <==> b < 2
            &&& !ground[b].stages.fragment
            &&& data[b].stages.fragment <==> b == 0
            &&& ground[0].kind == BindingKind::Uniform { dynamic: false, min_size: t }
            &&& data[0].kind == BindingKind::Uniform { dynamic: false, min_size: g }
            &&& ground[b].kind matches BindingKind::Texture { sample, view } ==> view
                == ViewDimension::D2 && (sample == SampleType::Uint <==> b == 2) && (sample
                == SampleType::Unfilterable <==> b == 1)
            &&& b > 0 ==> data[b].kind == BindingKind::Storage { read_only: false, min_size: 16 }
            &&& grass_group(0).len() == 3
            &&& grass_group(0)[b].binding == b
            &&& b == 0 <==> grass_group(0)[b].resource == Resource::Buffer(0)
            &&& b == 1 <==> grass_group(0)[b].resource == Resource::Texture(0)
            &&& b == 2 <==> grass_group(0)[b].resource == Resource::Texture(1)
        }),
{
}

} // verus!
