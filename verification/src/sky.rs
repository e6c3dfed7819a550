use crate::bits::{eq, float_eq, is_nan, ONE};
use crate::desc::{
    bind, compare_sampler, edge_sampler, entry, half_texture, make_compare_sampler,
    make_edge_sampler, make_half_texture, spec_bind, spec_entry, spec_stages, stages, BindEntry,
    BindGroupDesc, BindingKind, BufferDesc, BufferUse, ColorTarget, GpuFormat, LayoutEntry,
    RenderPipelineDesc, Resource, ResourcePlan, SampleType, SamplerDesc, TextureDesc,
    ViewDimension,
};
use crate::ffi::{WgrSky, WgrVec4};
use crate::math::{ceil_div, div_ceil_u32};
use vstd::prelude::*;

verus! {

/// Sizes of the tables of how much light gets through, and of light scattered many times.
pub const TRANSMITTANCE_W: u32 = 256;

pub const TRANSMITTANCE_H: u32 = 64;

pub const MULTISCATTER_SIZE: u32 = 32;

/// The volume of haze: across and down the screen, and into the distance.
pub const FROXEL_W: u32 = 32;

pub const FROXEL_H: u32 = 32;

pub const FROXEL_D: u32 = 32;

/// Bytes of the sky's parameters, and of a camera's shadows, on the device.
pub const SKY_UNIFORM_SIZE: u64 = 272;

pub const CAMERA_SHADOW_SIZE: u64 = 352;

/// What the tables depend on; the sun is one of their axes.
pub type LutKey = [u32; 14];

/// What the tables depend on.
pub open spec fn key_of(sky: &WgrSky) -> Seq<u32> {
    sky.rayleigh@ + sky.mie@ + sky.ground_albedo@.take(3) + seq![
        sky.params[2],
        sky.params[3],
        sky.control[3],
    ]
}

/// What the tables depend on.
pub fn lut_key(sky: &WgrSky) -> (key: LutKey)
    ensures
        key@ == key_of(sky),
{
    let key: LutKey = [
        sky.rayleigh[0],
        sky.rayleigh[1],
        sky.rayleigh[2],
        sky.rayleigh[3],
        sky.mie[0],
        sky.mie[1],
        sky.mie[2],
        sky.mie[3],
        sky.ground_albedo[0],
        sky.ground_albedo[1],
        sky.ground_albedo[2],
        sky.params[2],
        sky.params[3],
        sky.control[3],
    ];
    proof {
        assert(key@ =~= key_of(sky));
    }
    key
}

/// The numbers are the same, one by one.
pub open spec fn same_numbers(a: Seq<u32>, b: Seq<u32>) -> bool {
    a.len() == b.len() && forall|i: int| 0 <= i < a.len() ==> float_eq(#[trigger] a[i], b[i])
}

fn same_key(a: &LutKey, b: &LutKey) -> (same: bool)
    ensures
        same == same_numbers(a@, b@),
{
    let mut i: usize = 0;
    while i < 14
        invariant
            i <= 14,
            forall|k: int| 0 <= k < i ==> float_eq(#[trigger] a@[k], b@[k]),
        decreases 14 - i,
    {
        if !eq(a[i], b[i]) {
            proof {
                assert(!float_eq(a@[i as int], b@[i as int]));
            }
            return false;
        }
        i = i + 1;
    }
    true
}

/// The sky's parameters as the device gets them.
#[derive(Clone, Copy, Debug)]
pub struct SkyUniform {
    pub inv_view_proj: [WgrVec4; 4],
    pub sky: WgrSky,
    /// The first is one if colours are written in linear light.
    pub output: WgrVec4,
    pub cam_pos: WgrVec4,
}

/// A table to be drawn.
#[derive(Clone, Copy, Debug, PartialEq, Eq, Structural)]
pub enum LutPass {
    Transmittance,
    Multiscatter,
}

/// The sky.
pub struct Sky {
    /// Colours are written in linear light, to be toned later.
    pub linear: bool,
    /// What the tables were last drawn for, if they were.
    pub last_lut: Option<LutKey>,
    pub lut_dirty: bool,
}

impl Sky {
    /// No table is drawn yet.
    pub fn new(scene_is_linear: bool) -> (s: Sky)
        ensures
            s == (Sky { linear: scene_is_linear, last_lut: None, lut_dirty: true }),
    {
        Sky { linear: scene_is_linear, last_lut: None, lut_dirty: true }
    }

    /// The tables would have to be drawn again for this sky.
    pub open spec fn differs(&self, sky: &WgrSky) -> bool {
        match self.last_lut {
            Some(key) => !same_numbers(key@, key_of(sky)),
            None => true,
        }
    }

    /// Takes this frame's sky, and gives what is uploaded of it.
    pub fn upload(&mut self, sky: &WgrSky, inv_view_proj: [WgrVec4; 4], cam_pos: WgrVec4) -> (u:
        SkyUniform)
        ensures
            u.inv_view_proj == inv_view_proj,
            u.sky == *sky,
            u.output@ == seq![
                if old(self).linear {
                    ONE
                } else {
                    0
                },
                0,
                0,
                0,
            ],
            u.cam_pos == cam_pos,
            final(self).linear == old(self).linear,
            final(self).lut_dirty == (old(self).lut_dirty || old(self).differs(sky)),
            old(self).differs(sky) ==> (final(self).last_lut matches Some(key) && key@ == key_of(
                sky,
            )),
            !old(self).differs(sky) ==> final(self).last_lut == old(self).last_lut,
    {
        let key: LutKey = lut_key(sky);
        let same: bool = match &self.last_lut {
            Some(known) => same_key(known, &key),
            None => false,
        };
        if !same {
            self.last_lut = Some(key);
            self.lut_dirty = true;
        }
        SkyUniform {
            inv_view_proj,
            sky: *sky,
            output: [
                if self.linear {
                    ONE
                } else {
                    0
                },
                0,
                0,
                0,
            ],
            cam_pos,
        }
    }

    /// The tables to be drawn before the sky: the second reads the first.
    pub fn render_luts(&mut self) -> (passes: Vec<LutPass>)
        ensures
            passes@ == if old(self).lut_dirty {
                seq![LutPass::Transmittance, LutPass::Multiscatter]
            } else {
                Seq::empty()
            },
            *final(self) == (Sky { lut_dirty: false, ..*old(self) }),
    {
        if !self.lut_dirty {
            return Vec::new();
        }
        self.lut_dirty = false;
        vec![LutPass::Transmittance, LutPass::Multiscatter]
    }

    /// How many workgroups fill the haze, across and down.
    pub fn render_froxel(&self) -> (groups: (u32, u32))
        ensures
            groups.0 == ceil_div(FROXEL_W as int, 8),
            groups.1 == ceil_div(FROXEL_H as int, 8),
    {
        (div_ceil_u32(FROXEL_W, 8), div_ceil_u32(FROXEL_H, 8))
    }
}

/// Tables that were drawn for an air of proper numbers need not be drawn again while the air stays
/// as it is, wherever sun and moon stand.
pub proof fn tables_last(before: Sky, first: WgrSky, next: WgrSky)
    requires
        before.last_lut matches Some(key) && key@ == key_of(&first),
        forall|i: int| 0 <= i < 14 ==> !is_nan(#[trigger] key_of(&first)[i]),
        key_of(&next) == key_of(&first),
    ensures
        !before.differs(&next),
{
}

/// A binding that the sky's drawing reads.
pub open spec fn draw_entry(binding: u32) -> LayoutEntry {
    spec_entry(
        binding,
        spec_stages(false, true, false),
        BindingKind::Texture { sample: SampleType::Filterable, view: ViewDimension::D2 },
    )
}

/// The sky's parameters, as drawing binds them.
pub open spec fn draw_uniform() -> LayoutEntry {
    spec_entry(
        0,
        spec_stages(true, true, false),
        BindingKind::Uniform { dynamic: false, min_size: 0 },
    )
}

/// How drawing reads tables.
pub open spec fn draw_sampler() -> LayoutEntry {
    spec_entry(1, spec_stages(false, true, false), BindingKind::Sampler { comparison: false })
}

/// A binding of the filling of the haze.
pub open spec fn fill_entry(binding: u32, kind: BindingKind) -> LayoutEntry {
    spec_entry(binding, spec_stages(false, false, true), kind)
}

/// A plain texture of the filling of the haze.
pub open spec fn fill_texture(binding: u32) -> LayoutEntry {
    fill_entry(
        binding,
        BindingKind::Texture { sample: SampleType::Filterable, view: ViewDimension::D2 },
    )
}

/// What is bound: by the two tables, by the sky, and by the filling of the haze, for itself and
/// for the shadows in it.
pub open spec fn sky_layouts(mapping_size: u64) -> Seq<Seq<LayoutEntry>> {
    seq![
        seq![draw_uniform()],
        seq![draw_uniform(), draw_sampler(), draw_entry(2)],
        seq![draw_uniform(), draw_sampler(), draw_entry(2), draw_entry(3)],
        seq![
            fill_entry(0, BindingKind::Uniform { dynamic: false, min_size: 0 }),
            fill_entry(1, BindingKind::Sampler { comparison: false }),
            fill_texture(2),
            fill_texture(3),
            fill_entry(
                5,
                BindingKind::StorageTexture {
                    format: GpuFormat::Rgba16Float,
                    view: ViewDimension::D3,
                },
            ),
        ],
        seq![
            fill_texture(0),
            fill_entry(1, BindingKind::Sampler { comparison: false }),
            fill_entry(2, BindingKind::Uniform { dynamic: false, min_size: mapping_size }),
            fill_entry(
                3,
                BindingKind::Texture { sample: SampleType::Depth, view: ViewDimension::D2Array },
            ),
            fill_entry(4, BindingKind::Sampler { comparison: true }),
            fill_entry(5, BindingKind::Uniform { dynamic: false, min_size: CAMERA_SHADOW_SIZE }),
        ],
    ]
}

/// How the groups are filled. The ground's shadow mask and the shadow maps are lent.
pub open spec fn sky_groups() -> Seq<Seq<BindEntry>> {
    seq![
        seq![spec_bind(0, Resource::Buffer(0))],
        seq![
            spec_bind(0, Resource::Buffer(0)),
            spec_bind(1, Resource::Sampler(0)),
            spec_bind(2, Resource::Texture(0)),
        ],
        seq![
            spec_bind(0, Resource::Buffer(0)),
            spec_bind(1, Resource::Sampler(0)),
            spec_bind(2, Resource::Texture(0)),
            spec_bind(3, Resource::Texture(1)),
        ],
        seq![
            spec_bind(0, Resource::Buffer(0)),
            spec_bind(1, Resource::Sampler(0)),
            spec_bind(2, Resource::Texture(0)),
            spec_bind(3, Resource::Texture(1)),
            spec_bind(5, Resource::Texture(2)),
        ],
        seq![
            spec_bind(0, Resource::Lent),
            spec_bind(1, Resource::Sampler(2)),
            spec_bind(2, Resource::Buffer(2)),
            spec_bind(3, Resource::Lent),
            spec_bind(4, Resource::Sampler(1)),
            spec_bind(5, Resource::Buffer(1)),
        ],
    ]
}

fn make_draw_entry(binding: u32) -> (e: LayoutEntry)
    ensures
        e == draw_entry(binding),
{
    entry(
        binding,
        stages(false, true, false),
        BindingKind::Texture { sample: SampleType::Filterable, view: ViewDimension::D2 },
    )
}

fn make_draw_uniform() -> (e: LayoutEntry)
    ensures
        e == draw_uniform(),
{
    entry(0, stages(true, true, false), BindingKind::Uniform { dynamic: false, min_size: 0 })
}

fn make_draw_sampler() -> (e: LayoutEntry)
    ensures
        e == draw_sampler(),
{
    entry(1, stages(false, true, false), BindingKind::Sampler { comparison: false })
}

fn make_fill_entry(binding: u32, kind: BindingKind) -> (e: LayoutEntry)
    ensures
        e == fill_entry(binding, kind),
{
    entry(binding, stages(false, false, true), kind)
}

fn make_fill_texture(binding: u32) -> (e: LayoutEntry)
    ensures
        e == fill_texture(binding),
{
    make_fill_entry(
        binding,
        BindingKind::Texture { sample: SampleType::Filterable, view: ViewDimension::D2 },
    )
}

fn build_layouts(mapping_size: u64) -> (layouts: Vec<Vec<LayoutEntry>>)
    ensures
        layouts@.len() == 5,
        forall|l: int| 0 <= l < 5 ==> (#[trigger] layouts@[l])@ == sky_layouts(mapping_size)[l],
{
    let a: Vec<LayoutEntry> = vec![make_draw_uniform()];
    let b: Vec<LayoutEntry> = vec![make_draw_uniform(), make_draw_sampler(), make_draw_entry(2)];
    let c: Vec<LayoutEntry> = vec![
        make_draw_uniform(),
        make_draw_sampler(),
        make_draw_entry(2),
        make_draw_entry(3),
    ];
    let d: Vec<LayoutEntry> = vec![
        make_fill_entry(0, BindingKind::Uniform { dynamic: false, min_size: 0 }),
        make_fill_entry(1, BindingKind::Sampler { comparison: false }),
        make_fill_texture(2),
        make_fill_texture(3),
        make_fill_entry(
            5,
            BindingKind::StorageTexture { format: GpuFormat::Rgba16Float, view: ViewDimension::D3 },
        ),
    ];
    let e: Vec<LayoutEntry> = vec![
        make_fill_texture(0),
        make_fill_entry(1, BindingKind::Sampler { comparison: false }),
        make_fill_entry(2, BindingKind::Uniform { dynamic: false, min_size: mapping_size }),
        make_fill_entry(
            3,
            BindingKind::Texture { sample: SampleType::Depth, view: ViewDimension::D2Array },
        ),
        make_fill_entry(4, BindingKind::Sampler { comparison: true }),
        make_fill_entry(5, BindingKind::Uniform { dynamic: false, min_size: CAMERA_SHADOW_SIZE }),
    ];
    proof {
        let all = sky_layouts(mapping_size);
        assert(a@ =~= all[0]);
        assert(b@ =~= all[1]);
        assert(c@ =~= all[2]);
        assert(d@ =~= all[3]);
        assert(e@ =~= all[4]);
    }
    let mut layouts: Vec<Vec<LayoutEntry>> = Vec::new();
    layouts.push(a);
    layouts.push(b);
    layouts.push(c);
    layouts.push(d);
    layouts.push(e);
    layouts
}

fn build_groups() -> (groups: Vec<BindGroupDesc>)
    ensures
        groups@.len() == 5,
        forall|g: int|
            0 <= g < 5 ==> (#[trigger] groups@[g]).layout == g && groups@[g].entries@
                == sky_groups()[g],
{
    let a: Vec<BindEntry> = vec![bind(0, Resource::Buffer(0))];
    let b: Vec<BindEntry> = vec![
        bind(0, Resource::Buffer(0)),
        bind(1, Resource::Sampler(0)),
        bind(2, Resource::Texture(0)),
    ];
    let c: Vec<BindEntry> = vec![
        bind(0, Resource::Buffer(0)),
        bind(1, Resource::Sampler(0)),
        bind(2, Resource::Texture(0)),
        bind(3, Resource::Texture(1)),
    ];
    let d: Vec<BindEntry> = vec![
        bind(0, Resource::Buffer(0)),
        bind(1, Resource::Sampler(0)),
        bind(2, Resource::Texture(0)),
        bind(3, Resource::Texture(1)),
        bind(5, Resource::Texture(2)),
    ];
    let e: Vec<BindEntry> = vec![
        bind(0, Resource::Lent),
        bind(1, Resource::Sampler(2)),
        bind(2, Resource::Buffer(2)),
        bind(3, Resource::Lent),
        bind(4, Resource::Sampler(1)),
        bind(5, Resource::Buffer(1)),
    ];
    proof {
        let all = sky_groups();
        assert(a@ =~= all[0]);
        assert(b@ =~= all[1]);
        assert(c@ =~= all[2]);
        assert(d@ =~= all[3]);
        assert(e@ =~= all[4]);
    }
    let mut groups: Vec<BindGroupDesc> = Vec::new();
    groups.push(BindGroupDesc { layout: 0, entries: a });
    groups.push(BindGroupDesc { layout: 1, entries: b });
    groups.push(BindGroupDesc { layout: 2, entries: c });
    groups.push(BindGroupDesc { layout: 3, entries: d });
    groups.push(BindGroupDesc { layout: 4, entries: e });
    groups
}

/// What the sky makes at its start.
pub fn sky_resources(mapping_size: u64) -> (plan: ResourcePlan)
    ensures
        plan.wf(),
        plan.buffers@ == seq![
            BufferDesc { size: SKY_UNIFORM_SIZE, usage: BufferUse::Uniform },
            BufferDesc { size: CAMERA_SHADOW_SIZE, usage: BufferUse::Uniform },
            BufferDesc { size: mapping_size, usage: BufferUse::Uniform },
        ],
        plan.textures@ == seq![
            half_texture(TRANSMITTANCE_W, TRANSMITTANCE_H, 1, ViewDimension::D2, true, false),
            half_texture(MULTISCATTER_SIZE, MULTISCATTER_SIZE, 1, ViewDimension::D2, true, false),
            half_texture(FROXEL_W, FROXEL_H, FROXEL_D, ViewDimension::D3, false, true),
        ],
        plan.samplers@ == seq![edge_sampler(), compare_sampler(), edge_sampler()],
        plan.layouts@.len() == 5,
        forall|l: int|
            0 <= l < 5 ==> (#[trigger] plan.layouts@[l])@ == sky_layouts(mapping_size)[l],
        plan.groups@.len() == 5,
        forall|g: int|
            0 <= g < 5 ==> (#[trigger] plan.groups@[g]).layout == g && plan.groups@[g].entries@
                == sky_groups()[g],
{
    let buffers: Vec<BufferDesc> = vec![
        BufferDesc { size: SKY_UNIFORM_SIZE, usage: BufferUse::Uniform },
        BufferDesc { size: CAMERA_SHADOW_SIZE, usage: BufferUse::Uniform },
        BufferDesc { size: mapping_size, usage: BufferUse::Uniform },
    ];
    let textures: Vec<TextureDesc> = vec![
        make_half_texture(TRANSMITTANCE_W, TRANSMITTANCE_H, 1, ViewDimension::D2, true, false),
        make_half_texture(MULTISCATTER_SIZE, MULTISCATTER_SIZE, 1, ViewDimension::D2, true, false),
        make_half_texture(FROXEL_W, FROXEL_H, FROXEL_D, ViewDimension::D3, false, true),
    ];
    let samplers: Vec<SamplerDesc> = vec![
        make_edge_sampler(),
        make_compare_sampler(),
        make_edge_sampler(),
    ];
    let plan = ResourcePlan {
        buffers,
        textures,
        samplers,
        layouts: build_layouts(mapping_size),
        groups: build_groups(),
    };
    proof {
        assert forall|g: int| 0 <= g < 5 implies plan.fits(&#[trigger] plan.groups@[g]) by {
            let group = plan.groups@[g];
            assert(plan.layouts@[g]@ == sky_layouts(mapping_size)[g]);
            assert(group.entries@ == sky_groups()[g]);
        }
    }
    plan
}

/// How the sky is drawn: over everything, before anything else.
pub fn sky_pipeline(scene_is_linear: bool) -> (p: RenderPipelineDesc)
    ensures
        p == (RenderPipelineDesc {
            target: ColorTarget::Scene,
            blend: None,
            depth: None,
            cull_back: false,
            linear: scene_is_linear,
        }),
{
    RenderPipelineDesc {
        target: ColorTarget::Scene,
        blend: None,
        depth: None,
        cull_back: false,
        linear: scene_is_linear,
    }
}

/// The tables are drawn for the air: how it scatters and how much haze is in it, for the colour of
/// the ground, and for three more numbers; and for nothing else. They are drawn again exactly if
/// one of those is another number, or none at all; before that, always.
pub proof fn tables_are_drawn_for_the_air(before: Sky, first: WgrSky, next: WgrSky)
    requires
        before.last_lut matches Some(key) ==> key@ == key_of(&first),
    ensures
        before.last_lut is None ==> before.differs(&next),
        before.last_lut is Some ==> (!before.differs(&next) <==> {
            &&& forall|i: int|
                0 <= i < 4 ==> float_eq(#[trigger] first.rayleigh@[i], next.rayleigh@[i])
            &&& forall|i: int| 0 <= i < 4 ==> float_eq(#[trigger] first.mie@[i], next.mie@[i])
            &&& forall|i: int|
                0 <= i < 3 ==> float_eq(#[trigger] first.ground_albedo@[i], next.ground_albedo@[i])
            &&& float_eq(first.params[2], next.params[2])
            &&& float_eq(first.params[3], next.params[3])
            &&& float_eq(first.control[3], next.control[3])
        }),
{
    let (a, b) = (key_of(&first), key_of(&next));
    if before.last_lut is Some {
        if same_numbers(a, b) {
            assert forall|i: int| 0 <= i < 4 implies float_eq(
                #[trigger] first.rayleigh@[i],
                next.rayleigh@[i],
            ) by {
                assert(float_eq(a[i], b[i]));
            }
            assert forall|i: int| 0 <= i < 4 implies float_eq(
                #[trigger] first.mie@[i],
                next.mie@[i],
            ) by {
                assert(float_eq(a[4 + i], b[4 + i]));
            }
            assert forall|i: int| 0 <= i < 3 implies float_eq(
                #[trigger] first.ground_albedo@[i],
                next.ground_albedo@[i],
            ) by {
                assert(float_eq(a[8 + i], b[8 + i]));
            }
            assert(float_eq(a[11], b[11]) && float_eq(a[12], b[12]) && float_eq(a[13], b[13]));
        }
        if !before.differs(&next) {
            assert(same_numbers(a, b));
        } else {
            let i = choose|i: int| 0 <= i < a.len() && !float_eq(#[trigger] a[i], b[i]);
            if i < 4 {
                assert(!float_eq(first.rayleigh@[i], next.rayleigh@[i]));
            } else if i < 8 {
                assert(!float_eq(first.mie@[i - 4], next.mie@[i - 4]));
            } else if i < 11 {
                assert(!float_eq(first.ground_albedo@[i - 8], next.ground_albedo@[i - 8]));
            }
        }
    }
}

/// Tables and sky are drawn, and haze is filled; each of the last two layouts is read by compute
/// shaders only. Bindings are numbered upwards. Only the haze is written, and only shadow maps are
/// compared.
pub proof fn the_sky_is_bound_in_order(mapping_size: u64, l: int, e: int)
    requires
        0 <= l < 5,
        0 <= e < sky_layouts(mapping_size)[l].len(),
    ensures
        ({
            let layout = sky_layouts(mapping_size)[l];
            let entry = layout[e];
            &&& sky_layouts(mapping_size).len() == 5
            &&& entry.count == 0
            &&& e > 0 ==> layout[e - 1].binding < entry.binding
            &&& l < 3 ==> entry.stages.fragment && !entry.stages.compute
            &&& l >= 3 ==> entry.stages.compute && !entry.stages.fragment && !entry.stages.vertex
            &&& entry.kind is StorageTexture <==> l == 3 && e == 4
            &&& entry.kind matches BindingKind::Sampler { comparison } ==> (comparison <==> l == 4
                && entry.binding == 4)
            &&& entry.kind matches BindingKind::Texture { sample, .. } ==> (sample
                == SampleType::Depth <==> l == 4 && entry.binding == 3)
            &&& entry.kind matches BindingKind::Uniform { dynamic, .. } ==> !dynamic
        }),
{
}

/// Each table is read by what comes after it, and by nothing before: the first by the second, both
/// by the sky and by the haze, and the haze is filled by what reads them. Every group fills the
/// bindings of its layout.
pub proof fn tables_are_read_after_they_are_drawn(mapping_size: u64, g: int, e: int)
    requires
        0 <= g < 5,
        0 <= e < sky_groups()[g].len(),
    ensures
        ({
            let group = sky_groups()[g];
            &&& sky_groups().len() == 5
            &&& group.len() == sky_layouts(mapping_size)[g].len()
            &&& group[e].binding == sky_layouts(mapping_size)[g][e].binding
            &&& group[e].resource == Resource::Texture(0) <==> 1 <= g <= 3 && group[e].binding == 2
            &&& group[e].resource == Resource::Texture(1) <==> 2 <= g <= 3 && group[e].binding == 3
            &&& group[e].resource == Resource::Texture(2) <==> g == 3 && group[e].binding == 5
            &&& group[e].resource == Resource::Buffer(0) <==> g < 4 && e == 0
            &&& group[e].resource == Resource::Buffer(1) <==> g == 4 && group[e].binding == 5
            &&& group[e].resource == Resource::Buffer(2) <==> g == 4 && group[e].binding == 2
            &&& group[e].resource == Resource::Lent <==> g == 4 && (e == 0 || e == 3)
        }),
{
}

} // verus!
