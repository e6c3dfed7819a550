use crate::desc::{
    bind, entry, spec_bind, spec_entry, spec_stages, stages, AddressMode, BindEntry, BindGroupDesc,
    BindingKind, FilterMode, GpuFormat, LayoutEntry, Resource, ResourcePlan, SampleType,
    SamplerDesc, ViewDimension,
};
use crate::ffi::{CLAMP_U, CLAMP_V, POINT};
use crate::math::{larger, max_u32};
use crate::terrain::{filled_texture, make_filled_texture};
use crate::textures::SAMPLER_COUNT;
use vstd::prelude::*;

verus! {

/// What happens outside the edge.
pub open spec fn address(clamped: bool) -> AddressMode {
    if clamped {
        AddressMode::ClampToEdge
    } else {
        AddressMode::Repeat
    }
}

/// The sampler that the bits ask for: ending at the edge or going round, each way for itself, and
/// single texels or sharp blends of them.
pub open spec fn sampler_variant(bits: u32) -> SamplerDesc {
    let point = bits & POINT != 0;
    let filter = if point {
        FilterMode::Nearest
    } else {
        FilterMode::Linear
    };
    SamplerDesc {
        address_u: address(bits & CLAMP_U != 0),
        address_v: address(bits & CLAMP_V != 0),
        address_w: AddressMode::ClampToEdge,
        filter,
        mipmap: filter,
        anisotropy: if point {
            1
        } else {
            16
        },
        comparison: false,
    }
}

fn make_address(clamped: bool) -> (a: AddressMode)
    ensures
        a == address(clamped),
{
    if clamped {
        AddressMode::ClampToEdge
    } else {
        AddressMode::Repeat
    }
}

/// The sampler that the bits ask for.
pub fn make_sampler(bits: u32) -> (s: SamplerDesc)
    ensures
        s == sampler_variant(bits),
{
    let point: bool = bits & POINT != 0;
    let filter: FilterMode = if point {
        FilterMode::Nearest
    } else {
        FilterMode::Linear
    };
    SamplerDesc {
        address_u: make_address(bits & CLAMP_U != 0),
        address_v: make_address(bits & CLAMP_V != 0),
        address_w: AddressMode::ClampToEdge,
        filter,
        mipmap: filter,
        anisotropy: if point {
            1
        } else {
            16
        },
        comparison: false,
    }
}

/// All samplers, by their bits.
pub open spec fn all_samplers() -> Seq<SamplerDesc> {
    Seq::new(SAMPLER_COUNT as nat, |i: int| sampler_variant(i as u32))
}

/// Something that colouring reads.
pub open spec fn color_entry(kind: BindingKind, count: u32) -> LayoutEntry {
    LayoutEntry { count, ..spec_entry(0, spec_stages(false, true, false), kind) }
}

/// A plain texture.
pub open spec fn plain_texture() -> BindingKind {
    BindingKind::Texture { sample: SampleType::Filterable, view: ViewDimension::D2 }
}

fn make_color_entry(kind: BindingKind, count: u32) -> (e: LayoutEntry)
    ensures
        e == color_entry(kind, count),
{
    let mut e: LayoutEntry = entry(0, stages(false, true, false), kind);
    e.count = count;
    e
}

/// Layouts of a texture, of all textures, of a sampler, and of all samplers.
pub open spec fn texture_layouts(object_cap: u32) -> Seq<Seq<LayoutEntry>> {
    let sampler = BindingKind::Sampler { comparison: false };
    seq![
        seq![color_entry(plain_texture(), 0)],
        seq![color_entry(plain_texture(), larger(object_cap as int, 1) as u32)],
        seq![color_entry(sampler, 0)],
        seq![color_entry(sampler, SAMPLER_COUNT as u32)],
    ]
}

/// What textures share from the start: a white one, all samplers, each in a group of its own, and
/// behind them the white texture's group.
pub fn texture_resources(object_cap: u32) -> (plan: ResourcePlan)
    ensures
        plan.wf(),
        plan.buffers@.len() == 0,
        plan.textures@ == seq![filled_texture(1, 1, GpuFormat::Rgba8Unorm)],
        plan.samplers@ == all_samplers(),
        plan.layouts@.len() == 4,
        forall|l: int|
            0 <= l < 4 ==> (#[trigger] plan.layouts@[l])@ == texture_layouts(object_cap)[l],
        plan.groups@.len() == SAMPLER_COUNT + 1,
        forall|g: int|
            0 <= g < SAMPLER_COUNT ==> (#[trigger] plan.groups@[g]).layout == 2
                && plan.groups@[g].entries@ == seq![spec_bind(0, Resource::Sampler(g as usize))],
        plan.groups@[SAMPLER_COUNT as int].layout == 0,
        plan.groups@[SAMPLER_COUNT as int].entries@ == seq![spec_bind(0, Resource::Texture(0))],
{
    let sampler = BindingKind::Sampler { comparison: false };
    let texture = BindingKind::Texture {
        sample: SampleType::Filterable,
        view: ViewDimension::D2,
    };
    let one: Vec<LayoutEntry> = vec![make_color_entry(texture, 0)];
    let many: Vec<LayoutEntry> = vec![make_color_entry(texture, max_u32(object_cap, 1))];
    let reader: Vec<LayoutEntry> = vec![make_color_entry(sampler, 0)];
    let readers: Vec<LayoutEntry> = vec![make_color_entry(sampler, SAMPLER_COUNT as u32)];
    proof {
        let all = texture_layouts(object_cap);
        assert(one@ =~= all[0]);
        assert(many@ =~= all[1]);
        assert(reader@ =~= all[2]);
        assert(readers@ =~= all[3]);
    }
    let mut layouts: Vec<Vec<LayoutEntry>> = Vec::new();
    layouts.push(one);
    layouts.push(many);
    layouts.push(reader);
    layouts.push(readers);
    let mut samplers: Vec<SamplerDesc> = Vec::new();
    let mut groups: Vec<BindGroupDesc> = Vec::new();
    let mut i: usize = 0;
    while i < SAMPLER_COUNT
        invariant
            i <= SAMPLER_COUNT,
            samplers@ == all_samplers().take(i as int),
            groups@.len() == i,
            forall|g: int|
                0 <= g < i ==> (#[trigger] groups@[g]).layout == 2 && groups@[g].entries@ == seq![
                    spec_bind(0, Resource::Sampler(g as usize)),
                ],
        decreases SAMPLER_COUNT - i,
    {
        let made: SamplerDesc = make_sampler(i as u32);
        samplers.push(made);
        let entries: Vec<BindEntry> = vec![bind(0, Resource::Sampler(i))];
        proof {
            assert(all_samplers()[i as int] == made);
            assert(all_samplers().take(i as int).push(made) =~= all_samplers().take(i + 1));
            assert(entries@ =~= seq![spec_bind(0, Resource::Sampler(i))]);
        }
        groups.push(BindGroupDesc { layout: 2, entries });
        i = i + 1;
    }
    let white: Vec<BindEntry> = vec![bind(0, Resource::Texture(0))];
    proof {
        assert(all_samplers().take(i as int) =~= all_samplers());
        assert(white@ =~= seq![spec_bind(0, Resource::Texture(0))]);
    }
    groups.push(BindGroupDesc { layout: 0, entries: white });
    let plan = ResourcePlan {
        buffers: Vec::new(),
        textures: vec![make_filled_texture(1, 1, GpuFormat::Rgba8Unorm)],
        samplers,
        layouts,
        groups,
    };
    proof {
        let all = texture_layouts(object_cap);
        assert(plan.layouts@[0]@ == all[0]);
        assert(plan.layouts@[2]@ == all[2]);
        assert forall|g: int| 0 <= g < plan.groups@.len() implies plan.fits(
            &#[trigger] plan.groups@[g],
        ) by {
            if g < SAMPLER_COUNT {
                assert(plan.samplers@[g] == sampler_variant(g as u32));
            }
        }
    }
    plan
}

/// A sampler ends at the edge in the directions that its bits name and goes round in the others,
/// whatever the other bits. It takes single texels if its bits say so, and else blends texels and
/// levels, as sharply as can be. It never compares.
pub proof fn samplers_do_as_asked(bits: u32)
    ensures
        ({
            let s = sampler_variant(bits);
            &&& s.address_u == AddressMode::ClampToEdge <==> bits % 2 == 1
            &&& s.address_u == AddressMode::Repeat <==> bits % 2 == 0
            &&& s.address_v == AddressMode::ClampToEdge <==> (bits / 2) % 2 == 1
            &&& s.address_v == AddressMode::Repeat <==> (bits / 2) % 2 == 0
            &&& s.address_w == AddressMode::ClampToEdge
            &&& s.filter == FilterMode::Nearest <==> (bits / 4) % 2 == 1
            &&& s.filter == FilterMode::Linear <==> (bits / 4) % 2 == 0
            &&& s.mipmap == s.filter
            &&& s.filter == FilterMode::Nearest ==> s.anisotropy == 1
            &&& s.filter == FilterMode::Linear ==> s.anisotropy == 16
            &&& !s.comparison
        }),
{
    assert((bits & 1 != 0) == (bits % 2 == 1) && (bits & 2 != 0) == ((bits / 2) % 2 == 1) && (bits
        & 4 != 0) == ((bits / 4) % 2 == 1)) by (bit_vector);
}

/// The sampler at a position is the one that the position's bits ask for; there are eight. Layouts
/// are of one texture, of as many as there are places and never of none, of one sampler, and of all
/// eight; all are read where colours are made.
pub proof fn samplers_are_found_by_their_bits(object_cap: u32, bits: u32)
    requires
        bits < 8,
    ensures
        all_samplers().len() == 8,
        all_samplers()[bits as int] == sampler_variant(bits),
        ({
            let layouts = texture_layouts(object_cap);
            &&& layouts.len() == 4
            &&& forall|l: int|
                0 <= l < 4 ==> {
                    let e = (#[trigger] layouts[l])[0];
                    &&& layouts[l].len() == 1
                    &&& e.binding == 0
                    &&& e.stages.fragment && !e.stages.vertex && !e.stages.compute
                    &&& l < 2 ==> (e.kind matches BindingKind::Texture { sample, view } && sample
                        == SampleType::Filterable && view == ViewDimension::D2)
                    &&& l >= 2 ==> (e.kind matches BindingKind::Sampler { comparison }
                        && !comparison)
                }
            &&& layouts[0][0].count == 0
            &&& layouts[1][0].count >= 1 && layouts[1][0].count >= object_cap
            &&& object_cap > 0 ==> layouts[1][0].count == object_cap
            &&& layouts[2][0].count == 0
            &&& layouts[3][0].count == 8
        }),
{
}

/// Different bits ask for different samplers.
pub proof fn samplers_differ(a: u32, b: u32)
    requires
        a < SAMPLER_COUNT,
        b < SAMPLER_COUNT,
        sampler_variant(a) == sampler_variant(b),
    ensures
        a == b,
{
    let (au, bu) = (a & CLAMP_U != 0, b & CLAMP_U != 0);
    let (av, bv) = (a & CLAMP_V != 0, b & CLAMP_V != 0);
    let (ap, bp) = (a & POINT != 0, b & POINT != 0);
    assert(au == bu);
    assert(av == bv);
    assert(ap == bp);
    assert(a < 8 && b < 8 && ((a & 1 != 0) == (b & 1 != 0)) && ((a & 2 != 0) == (b & 2 != 0)) && ((a
        & 4 != 0) == (b & 4 != 0)) ==> a == b) by (bit_vector);
}

} // verus!
