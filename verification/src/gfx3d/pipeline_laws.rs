use crate::desc::{BlendComponent, BlendFactor, DepthCompare};
use crate::ffi::{WgrBlend, WgrDepthMode, WgrDraw3D};
use crate::gfx3d::mesh::PipelineKey;
use crate::gfx3d::pipelines::{blend_of, pipeline_of, MeshPipelineDesc};
use vstd::prelude::*;

verus! {

// What a pipeline does to a pixel, said of the draw that it is made for.

/// A point at depth `new` is drawn where depth `old` is; nearer is larger.
pub open spec fn is_visible(compare: DepthCompare, new: int, old: int) -> bool {
    match compare {
        DepthCompare::Always => true,
        DepthCompare::GreaterEqual => new >= old,
        DepthCompare::LessEqual => new <= old,
    }
}

/// The depth that is left where a point was drawn, or was not.
pub open spec fn depth_left(p: MeshPipelineDesc, new: int, old: int) -> int {
    if p.depth_write && is_visible(p.depth_compare, new, old) {
        new
    } else {
        old
    }
}

/// A point of a draw that uses no depth is always drawn; one of any other draw is drawn unless
/// something nearer is there. Depth changes only where a draw that writes it is drawn, and then
/// never to something farther.
pub proof fn depth_is_used_as_asked(d: WgrDraw3D, skinned: bool, new: int, old: int)
    ensures
        ({
            let p = pipeline_of(PipelineKey::of_draw(&d, skinned));
            &&& d.depth == WgrDepthMode::Off ==> is_visible(p.depth_compare, new, old)
                && depth_left(p, new, old) == old
            &&& d.depth == WgrDepthMode::Test ==> (is_visible(p.depth_compare, new, old) <==> old
                <= new) && depth_left(p, new, old) == old
            &&& d.depth == WgrDepthMode::TestWrite ==> (is_visible(p.depth_compare, new, old)
                <==> old <= new) && depth_left(p, new, old) == if old <= new {
                new
            } else {
                old
            }
        }),
{
}

/// For every key: depth is compared unless it is off, and written only where it is tested and
/// written.
pub proof fn depth_follows_its_mode(key: PipelineKey)
    ensures
        pipeline_of(key).depth_compare == DepthCompare::Always <==> key.depth == WgrDepthMode::Off,
        pipeline_of(key).depth_compare == DepthCompare::GreaterEqual <==> key.depth
            == WgrDepthMode::Test || key.depth == WgrDepthMode::TestWrite,
        pipeline_of(key).depth_write <==> key.depth == WgrDepthMode::TestWrite,
{
}

/// A factor, in parts of `full`, for the opacity `alpha` in the same parts.
pub open spec fn parts(f: BlendFactor, alpha: int, full: int) -> int {
    match f {
        BlendFactor::Zero => 0,
        BlendFactor::One => full,
        BlendFactor::SrcAlpha => alpha,
        BlendFactor::OneMinusSrcAlpha => full - alpha,
    }
}

/// A channel after drawing `new` over `old`, `full` times as large.
pub open spec fn mixed(b: BlendComponent, new: int, old: int, alpha: int, full: int) -> int {
    parts(b.src, alpha, full) * new + parts(b.dst, alpha, full) * old
}

/// A channel of the picture after a draw, `full` times as large.
pub open spec fn drawn_over(
    p: MeshPipelineDesc,
    new: int,
    old: int,
    alpha: int,
    full: int,
) -> int {
    match p.blend {
        None => full * new,
        Some(b) => mixed(b.color, new, old, alpha, full),
    }
}

/// What is opaque replaces what is there, whatever its opacity. What is blended replaces it by as
/// much as it is opaque. What is added adds as much to it. A shadow takes as much away from it,
/// whatever colour the shadow has.
pub proof fn colours_mix_as_asked(
    d: WgrDraw3D,
    skinned: bool,
    new: int,
    old: int,
    alpha: int,
    full: int,
)
    ensures
        ({
            let p = pipeline_of(PipelineKey::of_draw(&d, skinned));
            let mix = drawn_over(p, new, old, alpha, full);
            &&& d.blend == WgrBlend::Opaque ==> mix == full * new
            &&& d.blend == WgrBlend::Alpha ==> mix == alpha * new + (full - alpha) * old
            &&& d.blend == WgrBlend::Additive ==> mix == alpha * new + full * old
            &&& d.blend == WgrBlend::Shadow ==> mix == (full - alpha) * old
        }),
{
    assert(0 * new == 0) by (nonlinear_arith);
}

/// The opacity that is left, `full` times as large, where a draw is blended in: never less than
/// before, but for shadows, which leave their own.
pub proof fn opacity_adds_up(blend: WgrBlend, alpha: int, old: int, full: int)
    requires
        0 <= alpha <= full,
        0 <= old <= full,
    ensures
        blend_of(blend) matches Some(b) ==> {
            let left = mixed(b.alpha, alpha, old, alpha, full);
            &&& blend == WgrBlend::Shadow ==> left == full * alpha
            &&& blend != WgrBlend::Shadow ==> left == full * alpha + (full - alpha) * old && left
                >= full * old
        },
{
    assert(0 * old == 0) by (nonlinear_arith);
    assert(full * alpha + (full - alpha) * old >= full * old) by (nonlinear_arith)
        requires
            0 <= alpha <= full,
            0 <= old <= full,
    ;
}

/// Shadow polygons darken a pixel once, and are pushed up by their own bias alone. Of the others,
/// what lies on a surface is pushed up by one unit of its own; what does not, by the overlay level
/// that its flags hold; and nothing else is done to either.
pub proof fn overlays_are_pushed_up(d: WgrDraw3D, skinned: bool)
    ensures
        ({
            let p = pipeline_of(PipelineKey::of_draw(&d, skinned));
            let (shadow, lies) = (d.blend == WgrBlend::Shadow, d.flags % 2 == 1);
            &&& p.once_per_pixel == shadow
            &&& p.is_shadow == shadow
            &&& p.depth_bias == if shadow {
                64int
            } else {
                0
            }
            &&& p.decal_units == if !shadow && lies {
                1int
            } else {
                0
            }
            &&& p.zbias_units == if !shadow && !lies {
                (d.flags / 256) % 4
            } else {
                0
            }
        }),
{
    let flags = d.flags;
    assert(flags & 1 != 0 <==> flags % 2 == 1) by (bit_vector);
    assert((flags & 0x300) >> 8u32 == (flags / 256) % 4) by (bit_vector);
}

/// Two draws share a pipeline if nothing that it does tells them apart.
pub proof fn equal_pipelines_do_the_same(a: WgrDraw3D, b: WgrDraw3D, s: bool, t: bool)
    ensures
        PipelineKey::of_draw(&a, s) == PipelineKey::of_draw(&b, t) ==> {
            &&& s == t
            &&& a.blend == b.blend
            &&& a.depth == b.depth
            &&& a.alpha_ref == b.alpha_ref
            &&& pipeline_of(PipelineKey::of_draw(&a, s)).alpha_ref == a.alpha_ref
            &&& pipeline_of(PipelineKey::of_draw(&a, s)).skinned == s
        },
        a.blend == b.blend && a.depth == b.depth && a.flags == b.flags && a.alpha_ref
            == b.alpha_ref && s == t ==> PipelineKey::of_draw(&a, s) == PipelineKey::of_draw(&b, t),
{
}

} // verus!
