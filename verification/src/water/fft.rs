use crate::desc::{
    bind, entry, spec_bind, spec_entry, spec_stages, stages, BindEntry, BindGroupDesc, BindingKind,
    BufferDesc, BufferUse, GpuFormat, LayoutEntry, Resource, ResourcePlan, SampleType, TextureDesc,
    TextureUse, ViewDimension,
};
use crate::ffi::{WgrVec4, WgrWaterParams};
use crate::startup::{flag, flag_of};
use vstd::prelude::*;

verus! {

// Waves are synthesised from a spectrum: a random field is drawn once, evolved every frame, and
// transformed along both axes in stages that read one texture and write another.

/// Waves along each side.
pub const FFT_RESOLUTION: u32 = 256;

/// Cascades of waves, each for its own range of lengths.
pub const FFT_LAYERS: u32 = 4;

/// Stages of the transform along one axis.
pub const FFT_STAGES: u32 = 8;

/// Pairs of numbers that are transformed side by side.
pub const FFT_PACKS: u32 = 3;

/// Groups that one stage dispatches along each side.
pub const FFT_GROUPS: u32 = 32;

/// What the random field is drawn from, as raw bits: anything else may change without the field
/// being drawn anew.
#[derive(Clone, Copy, Debug, PartialEq, Eq)]
pub struct SpectrumInputs {
    pub enabled: u32,
    pub seed: u32,
    pub wave_amp: u32,
    pub wind_sea: WgrVec4,
    pub cascade_lengths: WgrVec4,
}

fn same_lanes(a: &WgrVec4, b: &WgrVec4) -> (same: bool)
    ensures
        same == (*a == *b),
{
    let same: bool = a[0] == b[0] && a[1] == b[1] && a[2] == b[2] && a[3] == b[3];
    proof {
        if same {
            assert(*a =~= *b);
        }
    }
    same
}

impl SpectrumInputs {
    /// What the field is drawn from, among the parameters of the water.
    pub open spec fn of_params(params: &WgrWaterParams) -> SpectrumInputs {
        SpectrumInputs {
            enabled: params.fft_control[0],
            seed: params.fft_control[1],
            wave_amp: params.wave_amp,
            wind_sea: params.fft_wind_sea,
            cascade_lengths: params.fft_cascade_lengths,
        }
    }

    /// What the field is drawn from, among the parameters of the water.
    pub fn from_params(params: &WgrWaterParams) -> (s: SpectrumInputs)
        ensures
            s == SpectrumInputs::of_params(params),
    {
        SpectrumInputs {
            enabled: params.fft_control[0],
            seed: params.fft_control[1],
            wave_amp: params.wave_amp,
            wind_sea: params.fft_wind_sea,
            cascade_lengths: params.fft_cascade_lengths,
        }
    }

    /// The same field would be drawn.
    pub fn same(&self, other: &SpectrumInputs) -> (same: bool)
        ensures
            same == (*self == *other),
    {
        self.enabled == other.enabled && self.seed == other.seed && self.wave_amp == other.wave_amp
            && same_lanes(&self.wind_sea, &other.wind_sea) && same_lanes(
            &self.cascade_lengths,
            &other.cascade_lengths,
        )
    }
}

/// The synthesis of waves.
pub struct Fft {
    pub stage_alignment: u32,
    pub spectrum_inputs: Option<SpectrumInputs>,
    /// The field has to be drawn before waves are made of it.
    pub spectrum_dirty: bool,
}

/// One step of making waves.
#[derive(Clone, Copy, Debug, PartialEq, Eq, Structural)]
pub enum FftStep {
    /// Draws the random field.
    Init,
    /// Moves it on in time.
    Evolve,
    /// One stage of the transform, with its group and the offset of its parameters.
    Stage { axis: u32, group: usize, offset: u32 },
    /// Puts the waves together.
    Compose,
}

/// The most that entries of the stages' parameters are apart: the offset of the last of them can
/// still be counted in 32 bits.
pub const MAX_ALIGNMENT: u32 = 0x1111_1111;

/// The group of the first stage; before it come those of drawing and of evolving.
pub const FIRST_STAGE_GROUP: usize = 2;

/// The group that puts the waves together.
pub const COMPOSE_GROUP: usize = 50;

/// How many stages there are along both axes.
pub const ALL_STAGES: u32 = 16;

/// How many groups the stages have.
pub const STAGE_GROUPS: u32 = 48;

impl Fft {
    /// Offsets of the stages' parameters can be counted.
    pub open spec fn wf(&self) -> bool {
        16 <= self.stage_alignment <= MAX_ALIGNMENT
    }

    /// Waves are synthesised if the device can write textures and nobody says no.
    pub fn new(storage_supported: bool, switch: Option<&str>, alignment: u32) -> (f: Option<Fft>)
        requires
            16 <= alignment <= MAX_ALIGNMENT,
        ensures
            f is Some <==> storage_supported && flag_of(switch, true),
            f matches Some(fft) ==> fft.wf() && fft.stage_alignment == alignment
                && fft.spectrum_inputs is None && fft.spectrum_dirty,
    {
        if !storage_supported || !flag(switch, true) {
            return None;
        }
        Some(Fft { stage_alignment: alignment, spectrum_inputs: None, spectrum_dirty: true })
    }

    /// Takes new parameters; the field is drawn again if it depends on what changed.
    pub fn set_params(&mut self, params: &WgrWaterParams)
        ensures
            *final(self) == (Fft {
                spectrum_inputs: Some(SpectrumInputs::of_params(params)),
                spectrum_dirty: old(self).spectrum_dirty || old(self).spectrum_inputs != Some(
                    SpectrumInputs::of_params(params),
                ),
                ..*old(self)
            }),
    {
        let inputs = SpectrumInputs::from_params(params);
        let same: bool = match &self.spectrum_inputs {
            Some(known) => known.same(&inputs),
            None => false,
        };
        if !same {
            self.spectrum_inputs = Some(inputs);
            self.spectrum_dirty = true;
        }
    }

    /// A cascade is set up otherwise: the field is drawn again.
    pub fn set_cascade_config(&mut self)
        ensures
            *final(self) == (Fft { spectrum_dirty: true, ..*old(self) }),
    {
        self.spectrum_dirty = true;
    }

    /// The steps of all stages: axis by axis, stage by stage, pack by pack.
    pub open spec fn stage_steps(&self) -> Seq<FftStep> {
        Seq::new(
            STAGE_GROUPS as nat,
            |i: int|
                FftStep::Stage {
                    axis: (i / 24) as u32,
                    group: (FIRST_STAGE_GROUP + i) as usize,
                    offset: ((i / 3) * self.stage_alignment) as u32,
                },
        )
    }

    /// A frame's steps.
    pub open spec fn steps(&self) -> Seq<FftStep> {
        (if self.spectrum_dirty {
            seq![FftStep::Init]
        } else {
            Seq::empty()
        }) + seq![FftStep::Evolve] + self.stage_steps() + seq![FftStep::Compose]
    }

    /// Makes this frame's waves; the field is drawn only if it has to be.
    pub fn dispatch(&mut self) -> (steps: Vec<FftStep>)
        requires
            old(self).wf(),
        ensures
            steps@ == old(self).steps(),
            *final(self) == (Fft { spectrum_dirty: false, ..*old(self) }),
    {
        let mut steps: Vec<FftStep> = Vec::new();
        let ghost before = *self;
        if self.spectrum_dirty {
            steps.push(FftStep::Init);
            self.spectrum_dirty = false;
        }
        steps.push(FftStep::Evolve);
        let ghost head = steps@;
        let ghost all = self.stage_steps();
        let mut i: u32 = 0;
        while i < STAGE_GROUPS
            invariant
                self.wf(),
                i <= STAGE_GROUPS,
                all == self.stage_steps(),
                steps@ == head + all.take(i as int),
            decreases STAGE_GROUPS - i,
        {
            proof {
                assert((i / 3) * self.stage_alignment <= 15 * MAX_ALIGNMENT) by (nonlinear_arith)
                    requires
                        i < 48,
                        self.stage_alignment <= MAX_ALIGNMENT,
                        MAX_ALIGNMENT == 0x1111_1111,
                ;
            }
            let step = FftStep::Stage {
                axis: i / 24,
                group: FIRST_STAGE_GROUP + i as usize,
                offset: (i / 3) * self.stage_alignment,
            };
            steps.push(step);
            proof {
                assert(all[i as int] == step);
                assert(all.take(i as int).push(step) =~= all.take(i + 1));
                assert(steps@ =~= head + all.take(i + 1));
            }
            i = i + 1;
        }
        steps.push(FftStep::Compose);
        proof {
            assert(all.take(i as int) =~= all);
            assert(steps@ =~= before.steps());
        }
        steps
    }
}

/// The texture that the pack `p` is in, before it is on its way (`side` zero) or on it.
pub open spec fn pack_texture(p: int, side: int) -> int {
    2 * p + side
}

/// The texture that stage `s` of all reads the pack from.
pub open spec fn stage_source(s: int, p: int) -> int {
    pack_texture(p, s % 2)
}

/// The texture that stage `s` of all writes the pack to.
pub open spec fn stage_target(s: int, p: int) -> int {
    pack_texture(p, 1 - s % 2)
}

/// The random field; displacement, motion and the rest of what waves are drawn from.
pub const FIELD_TEXTURE: usize = 6;

pub const DISPLACEMENT_TEXTURE: usize = 7;

pub const DYNAMICS_TEXTURE: usize = 8;

pub const AUXILIARY_TEXTURE: usize = 9;

/// A texture of waves.
pub open spec fn wave_texture(format: GpuFormat) -> TextureDesc {
    TextureDesc {
        width: FFT_RESOLUTION,
        height: FFT_RESOLUTION,
        layers: FFT_LAYERS,
        format,
        usage: TextureUse {
            sampled: true,
            storage: true,
            attachment: false,
            copy_dst: false,
            copy_src: false,
        },
        view: ViewDimension::D2Array,
    }
}

fn make_wave_texture(format: GpuFormat) -> (t: TextureDesc)
    ensures
        t == wave_texture(format),
{
    TextureDesc {
        width: FFT_RESOLUTION,
        height: FFT_RESOLUTION,
        layers: FFT_LAYERS,
        format,
        usage: TextureUse {
            sampled: true,
            storage: true,
            attachment: false,
            copy_dst: false,
            copy_src: false,
        },
        view: ViewDimension::D2Array,
    }
}

/// Parameters, in a binding of the computation.
pub open spec fn params_entry(dynamic: bool) -> LayoutEntry {
    spec_entry(
        0,
        spec_stages(false, false, true),
        BindingKind::Uniform { dynamic, min_size: 0 },
    )
}

/// Waves that are read.
pub open spec fn read_entry(binding: u32) -> LayoutEntry {
    spec_entry(
        binding,
        spec_stages(false, false, true),
        BindingKind::Texture { sample: SampleType::Unfilterable, view: ViewDimension::D2Array },
    )
}

/// Waves that are written.
pub open spec fn write_entry(binding: u32, format: GpuFormat) -> LayoutEntry {
    spec_entry(
        binding,
        spec_stages(false, false, true),
        BindingKind::StorageTexture { format, view: ViewDimension::D2Array },
    )
}

fn make_params_entry(dynamic: bool) -> (e: LayoutEntry)
    ensures
        e == params_entry(dynamic),
{
    entry(0, stages(false, false, true), BindingKind::Uniform { dynamic, min_size: 0 })
}

fn make_read_entry(binding: u32) -> (e: LayoutEntry)
    ensures
        e == read_entry(binding),
{
    entry(
        binding,
        stages(false, false, true),
        BindingKind::Texture { sample: SampleType::Unfilterable, view: ViewDimension::D2Array },
    )
}

fn make_write_entry(binding: u32, format: GpuFormat) -> (e: LayoutEntry)
    ensures
        e == write_entry(binding, format),
{
    entry(
        binding,
        stages(false, false, true),
        BindingKind::StorageTexture { format, view: ViewDimension::D2Array },
    )
}

/// What the four kinds of steps bind: drawing, evolving, a stage, composing.
pub open spec fn fft_layouts() -> Seq<Seq<LayoutEntry>> {
    seq![
        seq![params_entry(false), write_entry(1, GpuFormat::Rgba32Float)],
        seq![
            params_entry(false),
            read_entry(1),
            write_entry(2, GpuFormat::Rgba32Float),
            write_entry(3, GpuFormat::Rgba32Float),
            write_entry(4, GpuFormat::Rgba32Float),
        ],
        seq![params_entry(true), read_entry(1), write_entry(2, GpuFormat::Rgba32Float)],
        seq![
            params_entry(false),
            read_entry(1),
            read_entry(2),
            read_entry(3),
            write_entry(4, GpuFormat::Rgba16Float),
            write_entry(5, GpuFormat::Rgba16Float),
            write_entry(6, GpuFormat::Rgba16Float),
        ],
    ]
}

/// How a stage's group is filled.
pub open spec fn stage_group(i: int) -> Seq<BindEntry> {
    seq![
        spec_bind(0, Resource::BufferPart(0, 16)),
        spec_bind(1, Resource::Texture(stage_source(i / 3, i % 3) as usize)),
        spec_bind(2, Resource::Texture(stage_target(i / 3, i % 3) as usize)),
    ]
}

/// How the groups are filled. The water's parameters are lent.
pub open spec fn fft_group(g: int) -> Seq<BindEntry> {
    if g == 0 {
        seq![spec_bind(0, Resource::Lent), spec_bind(1, Resource::Texture(FIELD_TEXTURE))]
    } else if g == 1 {
        seq![
            spec_bind(0, Resource::Lent),
            spec_bind(1, Resource::Texture(FIELD_TEXTURE)),
            spec_bind(2, Resource::Texture(0)),
            spec_bind(3, Resource::Texture(2)),
            spec_bind(4, Resource::Texture(4)),
        ]
    } else if g < COMPOSE_GROUP {
        stage_group(g - FIRST_STAGE_GROUP)
    } else {
        seq![
            spec_bind(0, Resource::Lent),
            spec_bind(1, Resource::Texture(0)),
            spec_bind(2, Resource::Texture(2)),
            spec_bind(3, Resource::Texture(4)),
            spec_bind(4, Resource::Texture(DISPLACEMENT_TEXTURE)),
            spec_bind(5, Resource::Texture(DYNAMICS_TEXTURE)),
            spec_bind(6, Resource::Texture(AUXILIARY_TEXTURE)),
        ]
    }
}

/// Which layout a group fills.
pub open spec fn fft_group_layout(g: int) -> int {
    if g < FIRST_STAGE_GROUP {
        g
    } else if g < COMPOSE_GROUP {
        2
    } else {
        3
    }
}

/// The textures: three packs twice, the field, and what waves are drawn from.
pub open spec fn fft_textures() -> Seq<TextureDesc> {
    Seq::new(
        10,
        |t: int|
            wave_texture(
                if t < DISPLACEMENT_TEXTURE {
                    GpuFormat::Rgba32Float
                } else {
                    GpuFormat::Rgba16Float
                },
            ),
    )
}

fn build_layouts() -> (layouts: Vec<Vec<LayoutEntry>>)
    ensures
        layouts@.len() == 4,
        forall|l: int| 0 <= l < 4 ==> (#[trigger] layouts@[l])@ == fft_layouts()[l],
{
    let rgba32 = GpuFormat::Rgba32Float;
    let rgba16 = GpuFormat::Rgba16Float;
    let init: Vec<LayoutEntry> = vec![make_params_entry(false), make_write_entry(1, rgba32)];
    let evolve: Vec<LayoutEntry> = vec![
        make_params_entry(false),
        make_read_entry(1),
        make_write_entry(2, rgba32),
        make_write_entry(3, rgba32),
        make_write_entry(4, rgba32),
    ];
    let stage: Vec<LayoutEntry> = vec![
        make_params_entry(true),
        make_read_entry(1),
        make_write_entry(2, rgba32),
    ];
    let compose: Vec<LayoutEntry> = vec![
        make_params_entry(false),
        make_read_entry(1),
        make_read_entry(2),
        make_read_entry(3),
        make_write_entry(4, rgba16),
        make_write_entry(5, rgba16),
        make_write_entry(6, rgba16),
    ];
    proof {
        assert(init@ =~= fft_layouts()[0]);
        assert(evolve@ =~= fft_layouts()[1]);
        assert(stage@ =~= fft_layouts()[2]);
        assert(compose@ =~= fft_layouts()[3]);
    }
    let mut layouts: Vec<Vec<LayoutEntry>> = Vec::new();
    layouts.push(init);
    layouts.push(evolve);
    layouts.push(stage);
    layouts.push(compose);
    layouts
}

fn build_groups() -> (groups: Vec<BindGroupDesc>)
    ensures
        groups@.len() == COMPOSE_GROUP + 1,
        forall|g: int|
            0 <= g <= COMPOSE_GROUP ==> (#[trigger] groups@[g]).layout == fft_group_layout(g)
                && groups@[g].entries@ == fft_group(g),
{
    let mut groups: Vec<BindGroupDesc> = Vec::new();
    let init: Vec<BindEntry> = vec![
        bind(0, Resource::Lent),
        bind(1, Resource::Texture(FIELD_TEXTURE)),
    ];
    let evolve: Vec<BindEntry> = vec![
        bind(0, Resource::Lent),
        bind(1, Resource::Texture(FIELD_TEXTURE)),
        bind(2, Resource::Texture(0)),
        bind(3, Resource::Texture(2)),
        bind(4, Resource::Texture(4)),
    ];
    proof {
        assert(init@ =~= fft_group(0));
        assert(evolve@ =~= fft_group(1));
    }
    groups.push(BindGroupDesc { layout: 0, entries: init });
    groups.push(BindGroupDesc { layout: 1, entries: evolve });
    let mut i: usize = 0;
    while i < STAGE_GROUPS as usize
        invariant
            i <= STAGE_GROUPS,
            groups@.len() == FIRST_STAGE_GROUP + i,
            forall|g: int|
                0 <= g < FIRST_STAGE_GROUP + i ==> (#[trigger] groups@[g]).layout
                    == fft_group_layout(g) && groups@[g].entries@ == fft_group(g),
        decreases STAGE_GROUPS - i,
    {
        let side: usize = (i / 3) % 2;
        let pack: usize = i % 3;
        let source: usize = 2 * pack + side;
        let target: usize = 2 * pack + 1 - side;
        let entries: Vec<BindEntry> = vec![
            bind(0, Resource::BufferPart(0, 16)),
            bind(1, Resource::Texture(source)),
            bind(2, Resource::Texture(target)),
        ];
        proof {
            assert(entries@ =~= stage_group(i as int));
        }
        groups.push(BindGroupDesc { layout: 2, entries });
        i = i + 1;
    }
    let compose: Vec<BindEntry> = vec![
        bind(0, Resource::Lent),
        bind(1, Resource::Texture(0)),
        bind(2, Resource::Texture(2)),
        bind(3, Resource::Texture(4)),
        bind(4, Resource::Texture(DISPLACEMENT_TEXTURE)),
        bind(5, Resource::Texture(DYNAMICS_TEXTURE)),
        bind(6, Resource::Texture(AUXILIARY_TEXTURE)),
    ];
    proof {
        assert(compose@ =~= fft_group(COMPOSE_GROUP as int));
    }
    groups.push(BindGroupDesc { layout: 3, entries: compose });
    groups
}

/// What the synthesis makes at its start.
pub fn fft_resources(alignment: u32) -> (plan: ResourcePlan)
    requires
        16 <= alignment <= MAX_ALIGNMENT,
    ensures
        plan.wf(),
        plan.buffers@ == seq![
            BufferDesc { size: (alignment * ALL_STAGES) as u64, usage: BufferUse::Uniform },
        ],
        plan.textures@ == fft_textures(),
        plan.samplers@.len() == 0,
        plan.layouts@.len() == 4,
        forall|l: int| 0 <= l < 4 ==> (#[trigger] plan.layouts@[l])@ == fft_layouts()[l],
        plan.groups@.len() == COMPOSE_GROUP + 1,
        forall|g: int|
            0 <= g <= COMPOSE_GROUP ==> (#[trigger] plan.groups@[g]).layout == fft_group_layout(g)
                && plan.groups@[g].entries@ == fft_group(g),
{
    let mut textures: Vec<TextureDesc> = Vec::new();
    let mut t: usize = 0;
    while t < 10
        invariant
            t <= 10,
            textures@ == fft_textures().take(t as int),
        decreases 10 - t,
    {
        let made: TextureDesc = if t < DISPLACEMENT_TEXTURE {
            make_wave_texture(GpuFormat::Rgba32Float)
        } else {
            make_wave_texture(GpuFormat::Rgba16Float)
        };
        textures.push(made);
        proof {
            assert(fft_textures()[t as int] == made);
            assert(fft_textures().take(t as int).push(made) =~= fft_textures().take(t + 1));
        }
        t = t + 1;
    }
    proof {
        assert(fft_textures().take(10) =~= fft_textures());
    }
    let plan = ResourcePlan {
        buffers: vec![
            BufferDesc { size: alignment as u64 * ALL_STAGES as u64, usage: BufferUse::Uniform },
        ],
        textures,
        samplers: Vec::new(),
        layouts: build_layouts(),
        groups: build_groups(),
    };
    proof {
        assert forall|g: int| 0 <= g < plan.groups@.len() implies plan.fits(
            &#[trigger] plan.groups@[g],
        ) by {
            fft_groups_fit(&plan, g);
        }
    }
    plan
}

proof fn fft_groups_fit(plan: &ResourcePlan, g: int)
    requires
        0 <= g <= COMPOSE_GROUP,
        plan.buffers@.len() == 1,
        plan.buffers@[0].usage == BufferUse::Uniform,
        plan.buffers@[0].size >= 16,
        plan.textures@ == fft_textures(),
        plan.layouts@.len() == 4,
        forall|l: int| 0 <= l < 4 ==> (#[trigger] plan.layouts@[l])@ == fft_layouts()[l],
        plan.groups@.len() == COMPOSE_GROUP + 1,
        plan.groups@[g].layout == fft_group_layout(g),
        plan.groups@[g].entries@ == fft_group(g),
    ensures
        plan.fits(&plan.groups@[g]),
{
    let group = plan.groups@[g];
    let layout = plan.layouts@[group.layout as int]@;
    assert(layout == fft_layouts()[fft_group_layout(g)]);
    assert(layout.len() == fft_group(g).len());
    assert forall|e: int| 0 <= e < group.entries@.len() implies ({
        let entry = #[trigger] group.entries@[e];
        entry.binding == layout[e].binding && plan.fills(layout[e].kind, entry.resource)
    }) by {
        if FIRST_STAGE_GROUP <= g && g < COMPOSE_GROUP {
            let i = g - FIRST_STAGE_GROUP;
            assert(0 <= stage_source(i / 3, i % 3) < 6);
            assert(0 <= stage_target(i / 3, i % 3) < 6);
        }
    }
}

/// A word of a stage's parameters: the resolution, the stage along its axis, the axis, and
/// whether it is the last of all.
pub open spec fn stage_word(s: int, j: int) -> u32 {
    if j == 0 {
        FFT_RESOLUTION
    } else if j == 1 {
        (s % FFT_STAGES as int) as u32
    } else if j == 2 {
        (s / FFT_STAGES as int) as u32
    } else if s == ALL_STAGES - 1 {
        1
    } else {
        0
    }
}

/// The stages' parameters, each at its offset and nothing in between.
pub open spec fn stage_words(alignment: int) -> Seq<u32> {
    let stride = alignment / 4;
    Seq::new(
        (ALL_STAGES * stride) as nat,
        |w: int|
            if w % stride < 4 {
                stage_word(w / stride, w % stride)
            } else {
                0
            },
    )
}

/// The stages' parameters, as they are uploaded once.
pub fn build_stage_words(alignment: u32) -> (words: Vec<u32>)
    requires
        16 <= alignment <= MAX_ALIGNMENT,
        alignment % 4 == 0,
    ensures
        words@ == stage_words(alignment as int),
{
    let stride: u32 = alignment / 4;
    let ghost all = stage_words(alignment as int);
    let mut words: Vec<u32> = Vec::new();
    let mut s: u32 = 0;
    while s < ALL_STAGES
        invariant
            4 <= stride <= MAX_ALIGNMENT / 4,
            s <= ALL_STAGES,
            all == stage_words(alignment as int),
            stride == alignment / 4,
            words@.len() == s * stride,
            all.len() == ALL_STAGES * stride,
            words@ == all.take(s * stride),
        decreases ALL_STAGES - s,
    {
        let mut j: u32 = 0;
        while j < stride
            invariant
                4 <= stride <= MAX_ALIGNMENT / 4,
                s < ALL_STAGES,
                j <= stride,
                all == stage_words(alignment as int),
                stride == alignment / 4,
                all.len() == ALL_STAGES * stride,
                words@ == all.take(s * stride + j),
            decreases stride - j,
        {
            let w: u32 = if j == 0 {
                FFT_RESOLUTION
            } else if j == 1 {
                s % FFT_STAGES
            } else if j == 2 {
                s / FFT_STAGES
            } else if j == 3 && s == ALL_STAGES - 1 {
                1
            } else {
                0
            };
            words.push(w);
            proof {
                let at = s * stride + j;
                vstd::arithmetic::div_mod::lemma_fundamental_div_mod_converse(
                    at,
                    stride as int,
                    s as int,
                    j as int,
                );
                assert(at < ALL_STAGES * stride) by (nonlinear_arith)
                    requires
                        at == s * stride + j,
                        j < stride,
                        s < ALL_STAGES,
                ;
                assert(all[at] == w);
                assert(all.take(at).push(w) =~= all.take(at + 1));
            }
            j = j + 1;
        }
        proof {
            assert(s * stride + stride == (s + 1) * stride) by (nonlinear_arith);
            assert((s + 1) * stride <= ALL_STAGES * stride) by (nonlinear_arith)
                requires
                    s < ALL_STAGES,
            ;
        }
        s = s + 1;
    }
    proof {
        assert(all.take(s * stride) =~= all);
    }
    words
}

/// The packs go back and forth between their two textures: the first stage reads what evolving
/// wrote, every other what the stage before it wrote, no stage what it writes itself, and
/// composing reads what the last stage wrote.
pub proof fn stages_hand_on_the_packs(s: int, p: int)
    requires
        0 <= s < ALL_STAGES,
        0 <= p < FFT_PACKS,
    ensures
        fft_group(1)[2 + p].resource == Resource::Texture(stage_source(0, p) as usize),
        s > 0 ==> stage_source(s, p) == stage_target(s - 1, p),
        stage_source(s, p) != stage_target(s, p),
        fft_group(COMPOSE_GROUP as int)[1 + p].resource == Resource::Texture(
            stage_target(ALL_STAGES - 1, p) as usize,
        ),
        fft_group(FIRST_STAGE_GROUP + 3 * s + p) == stage_group(3 * s + p),
        stage_group(3 * s + p)[1].resource == Resource::Texture(stage_source(s, p) as usize),
        stage_group(3 * s + p)[2].resource == Resource::Texture(stage_target(s, p) as usize),
{
    let i = 3 * s + p;
    assert(i / 3 == s && i % 3 == p);
    if p == 0 {
    } else if p == 1 {
    } else {
        assert(p == 2);
    }
}

/// Packs do not share textures.
pub proof fn packs_keep_to_themselves(s: int, p: int, t: int, q: int)
    requires
        0 <= p < FFT_PACKS,
        0 <= q < FFT_PACKS,
        p != q,
    ensures
        stage_source(s, p) != stage_source(t, q),
        stage_source(s, p) != stage_target(t, q),
        stage_target(s, p) != stage_target(t, q),
{
}

/// Parameters that leave what the field is drawn from as it was leave the field alone.
pub proof fn only_spectrum_inputs_matter(before: Fft, after: Fft, params: &WgrWaterParams)
    requires
        before.spectrum_inputs == Some(SpectrumInputs::of_params(params)),
        !before.spectrum_dirty,
        after == (Fft {
            spectrum_inputs: Some(SpectrumInputs::of_params(params)),
            spectrum_dirty: before.spectrum_dirty || before.spectrum_inputs != Some(
                SpectrumInputs::of_params(params),
            ),
            ..before
        }),
    ensures
        !after.steps().contains(FftStep::Init),
{
    let steps = after.steps();
    assert forall|i: int| 0 <= i < steps.len() implies steps[i] != FftStep::Init by {
        if i == 0 {
            assert(steps[0] == FftStep::Evolve);
        } else if i < 49 {
            assert(steps[i] == after.stage_steps()[i - 1]);
        }
    }
}

/// The field depends on whether there are waves, on their seed and height, on the wind and the sea,
/// and on the lengths of the cascades; and on nothing else.
pub proof fn the_field_depends_on(a: WgrWaterParams, b: WgrWaterParams)
    ensures
        SpectrumInputs::of_params(&a) == SpectrumInputs::of_params(&b) <==> a.fft_control[0]
            == b.fft_control[0] && a.fft_control[1] == b.fft_control[1] && a.wave_amp == b.wave_amp
            && a.fft_wind_sea == b.fft_wind_sea && a.fft_cascade_lengths == b.fft_cascade_lengths,
{
}

/// Waves are made in order: the field is drawn first if it has to be, then moved on; then come both
/// axes, each of eight stages, each of three packs, every one with a group of its own and every
/// stage at an offset of its own; and last the waves are put together.
pub proof fn waves_are_made_in_order(f: Fft, axis: int, stage: int, pack: int)
    requires
        f.wf(),
        0 <= axis < 2,
        0 <= stage < 8,
        0 <= pack < 3,
    ensures
        ({
            let steps = f.steps();
            let first = if f.spectrum_dirty {
                1int
            } else {
                0
            };
            let i = 24 * axis + 3 * stage + pack;
            &&& steps.len() == first + 50
            &&& f.spectrum_dirty ==> steps[0] == FftStep::Init
            &&& steps[first] == FftStep::Evolve
            &&& steps[first + 1 + i] matches FftStep::Stage { axis: a, group, offset } && a == axis
                && group == 2 + i && offset == (8 * axis + stage) * f.stage_alignment
            &&& steps[first + 49] == FftStep::Compose
        }),
{
    let i = 24 * axis + 3 * stage + pack;
    assert(i / 24 == axis && i / 3 == 8 * axis + stage);
    let s = 8 * axis + stage;
    assert(0 <= s * f.stage_alignment <= 15 * 0x1111_1111) by (nonlinear_arith)
        requires
            0 <= s <= 15,
            0 <= f.stage_alignment <= 0x1111_1111,
    ;
    assert(f.stage_steps()[i] == FftStep::Stage {
        axis: axis as u32,
        group: (2 + i) as usize,
        offset: (s * f.stage_alignment) as u32,
    });
}

/// A stage finds at its offset how many waves there are along a side, which stage of its axis it
/// is, which axis that is, and whether it is the last of all; and nothing else.
pub proof fn stages_find_their_parameters(alignment: u32, axis: int, stage: int, k: int)
    requires
        16 <= alignment <= MAX_ALIGNMENT,
        alignment % 4 == 0,
        0 <= axis < 2,
        0 <= stage < 8,
        4 <= k < alignment / 4,
    ensures
        ({
            let words = stage_words(alignment as int);
            let at = (8 * axis + stage) * (alignment / 4);
            &&& words.len() == 16 * (alignment / 4)
            &&& words[at] == 256
            &&& words[at + 1] == stage
            &&& words[at + 2] == axis
            &&& words[at + 3] == 1 <==> axis == 1 && stage == 7
            &&& words[at + 3] == 0 <==> !(axis == 1 && stage == 7)
            &&& words[at + k] == 0
        }),
{
    let stride = (alignment / 4) as int;
    let s = 8 * axis + stage;
    assert(s / 8 == axis && s % 8 == stage);
    a_word_of_a_stage(stride, s, 0);
    a_word_of_a_stage(stride, s, 1);
    a_word_of_a_stage(stride, s, 2);
    a_word_of_a_stage(stride, s, 3);
    a_word_of_a_stage(stride, s, k);
    let words = stage_words(alignment as int);
    let at = s * stride;
    assert(words[at] == stage_word(s, 0));
    assert(words[at + 1] == stage_word(s, 1));
    assert(words[at + 2] == stage_word(s, 2));
    assert(words[at + 3] == stage_word(s, 3));
}

proof fn a_word_of_a_stage(stride: int, s: int, j: int)
    requires
        0 < stride,
        0 <= s < 16,
        0 <= j < stride,
    ensures
        0 <= s * stride + j < 16 * stride,
        (s * stride + j) / stride == s,
        (s * stride + j) % stride == j,
{
    vstd::arithmetic::div_mod::lemma_fundamental_div_mod_converse(s * stride + j, stride, s, j);
    assert(0 <= s * stride + j < 16 * stride) by (nonlinear_arith)
        requires
            0 < stride,
            0 <= s < 16,
            0 <= j < stride,
    ;
}

/// The field is written by the first group and read by the second; every stage has sixteen bytes of
/// parameters of its own; and the last group writes displacement, motion and the rest, which no
/// other does.
pub proof fn groups_do_their_part(g: int, e: int)
    requires
        0 <= g <= 50,
        0 <= e < fft_group(g).len(),
    ensures
        ({
            let entry = fft_group(g)[e];
            let layout = fft_layouts()[fft_group_layout(g)];
            &&& fft_group(g).len() == layout.len()
            &&& entry.binding == e
            &&& layout[e].binding == e
            &&& layout[e].stages.compute && !layout[e].stages.vertex && !layout[e].stages.fragment
            &&& e == 0 <==> layout[e].kind is Uniform
            &&& 2 <= g < 50 && e == 0 ==> entry.resource == Resource::BufferPart(0, 16)
            &&& (g < 2 || g == 50) && e == 0 ==> entry.resource == Resource::Lent
            &&& entry.resource == Resource::Texture(6) <==> g < 2 && e == 1
            &&& entry.resource == Resource::Texture(7) <==> g == 50 && e == 4
            &&& entry.resource == Resource::Texture(8) <==> g == 50 && e == 5
            &&& entry.resource == Resource::Texture(9) <==> g == 50 && e == 6
            &&& layout[e].kind is StorageTexture <==> (g == 0 && e == 1) || (g == 1 && e >= 2) || (2
                <= g < 50 && e == 2) || (g == 50 && e >= 4)
        }),
{
    if 2 <= g < 50 {
        let i = g - 2;
        assert(0 <= stage_source(i / 3, i % 3) < 6);
        assert(0 <= stage_target(i / 3, i % 3) < 6);
    }
}

/// Waves are two hundred and fifty-six to a side, in four layers; what is transformed is kept in
/// full floats, and what is drawn from in half.
pub proof fn waves_are_kept(t: int)
    requires
        0 <= t < fft_textures().len(),
    ensures
        fft_textures().len() == 10,
        fft_textures()[t].width == 256,
        fft_textures()[t].height == 256,
        fft_textures()[t].layers == 4,
        fft_textures()[t].view == ViewDimension::D2Array,
        fft_textures()[t].usage.sampled,
        fft_textures()[t].usage.storage,
        fft_textures()[t].format == GpuFormat::Rgba32Float <==> t < 7,
        fft_textures()[t].format == GpuFormat::Rgba16Float <==> t >= 7,
{
}

} // verus!
