use crate::bits::float_lt;
use crate::frame::{
    any_in, ends_segment, if_so, main_camera, segment_end, spread, DepthTarget, DepthUse,
    FrameLists, FrameStep, FrameTarget, PassDesc, PassKind, Renderer,
};
use crate::gfx3d::plan::Plan3dOp;
use vstd::prelude::*;

verus! {

/// Where a reader of a frame's steps stands.
pub ghost struct Reading {
    /// Inside a pass.
    pub open: bool,
    /// How often the scene was toned.
    pub toned: nat,
    /// How many passes have drawn colour.
    pub passes: nat,
    /// Every step so far was in its place.
    pub fine: bool,
}

/// Reading one step. A pass starts outside passes; it draws the scene before toning and the
/// screen after it, or, if nothing is toned, both as one; the first that draws colour clears,
/// and no other does. Draws stand inside passes, everything else outside.
pub open spec fn read(r: Reading, step: FrameStep, hdr: bool) -> Reading {
    match step {
        FrameStep::Begin(d) => Reading {
            open: true,
            toned: r.toned,
            passes: if d.kind == PassKind::Prepass {
                r.passes
            } else {
                r.passes + 1
            },
            fine: r.fine && !r.open && (d.target == FrameTarget::Display ==> r.toned > 0 || !hdr)
                && (d.target == FrameTarget::Scene ==> r.toned == 0) && (d.kind
                != PassKind::Prepass ==> d.clear == (r.passes == 0)),
        },
        FrameStep::End => Reading { open: false, fine: r.fine && r.open, ..r },
        FrameStep::Tonemap => Reading { toned: r.toned + 1, fine: r.fine && !r.open, ..r },
        FrameStep::SkyDraw | FrameStep::World { .. } | FrameStep::Mesh { .. } | FrameStep::Forget
        | FrameStep::Ground { .. } | FrameStep::Sea { .. } | FrameStep::Flat { .. }
        | FrameStep::CullSpheres { .. } | FrameStep::Overlay => Reading {
            fine: r.fine && r.open,
            ..r
        },
        _ => Reading { fine: r.fine && !r.open, ..r },
    }
}

/// Reading many steps.
pub open spec fn read_all(r: Reading, steps: Seq<FrameStep>, hdr: bool) -> Reading
    decreases steps.len(),
{
    if steps.len() == 0 {
        r
    } else {
        read(read_all(r, steps.drop_last(), hdr), steps.last(), hdr)
    }
}

proof fn read_all_joins(r: Reading, a: Seq<FrameStep>, b: Seq<FrameStep>, hdr: bool)
    ensures
        read_all(r, a + b, hdr) == read_all(read_all(r, a, hdr), b, hdr),
    decreases b.len(),
{
    if b.len() == 0 {
        assert(a + b =~= a);
    } else {
        assert((a + b).drop_last() =~= a + b.drop_last());
        read_all_joins(r, a, b.drop_last(), hdr);
    }
}

proof fn read_one(r: Reading, s: FrameStep, hdr: bool)
    ensures
        read_all(r, seq![s], hdr) == read(r, s, hdr),
{
    let one = seq![s];
    assert(one.drop_last() =~= Seq::<FrameStep>::empty());
    assert(read_all(r, one.drop_last(), hdr) == r);
}

proof fn read_push(r: Reading, a: Seq<FrameStep>, s: FrameStep, hdr: bool)
    ensures
        read_all(r, a + seq![s], hdr) == read(read_all(r, a, hdr), s, hdr),
{
    read_all_joins(r, a, seq![s], hdr);
    read_one(read_all(r, a, hdr), s, hdr);
}

/// The step draws.
pub open spec fn draws(step: FrameStep) -> bool {
    step is World || step is Mesh || step is Forget || step is Ground || step is Sea || step is Flat
        || step is CullSpheres
}

proof fn draws_stay_inside(r: Reading, steps: Seq<FrameStep>, hdr: bool)
    requires
        r.open,
        forall|i: int| 0 <= i < steps.len() ==> draws(#[trigger] steps[i]),
    ensures
        read_all(r, steps, hdr) == r,
    decreases steps.len(),
{
    if steps.len() > 0 {
        assert(draws(steps[steps.len() - 1]));
        assert forall|i: int| 0 <= i < steps.drop_last().len() implies draws(
            #[trigger] steps.drop_last()[i],
        ) by {
            assert(steps.drop_last()[i] == steps[i]);
        }
        draws_stay_inside(r, steps.drop_last(), hdr);
    }
}

proof fn spread_draws(
    f: spec_fn(Plan3dOp) -> Seq<FrameStep>,
    ops: Seq<Plan3dOp>,
    from: int,
    upto: int,
)
    requires
        forall|op: Plan3dOp, i: int| 0 <= i < f(op).len() ==> draws(#[trigger] f(op)[i]),
    ensures
        forall|i: int|
            0 <= i < spread(f, ops, from, upto).len() ==> draws(
                #[trigger] spread(f, ops, from, upto)[i],
            ),
    decreases upto - from,
{
    if upto > from {
        spread_draws(f, ops, from, upto - 1);
        let a = spread(f, ops, from, upto - 1);
        let b = f(ops[upto - 1]);
        assert forall|i: int| 0 <= i < (a + b).len() implies draws(#[trigger] (a + b)[i]) by {
            if i < a.len() {
                assert((a + b)[i] == a[i]);
            } else {
                assert((a + b)[i] == b[i - a.len()]);
            }
        }
    }
}

/// A pass is read from outside to outside if it starts where it may and holds nothing but draws.
proof fn read_pass(r: Reading, d: PassDesc, body: Seq<FrameStep>, hdr: bool)
    requires
        r.fine,
        !r.open,
        read(r, FrameStep::Begin(d), hdr).fine,
        forall|i: int| 0 <= i < body.len() ==> draws(#[trigger] body[i]),
    ensures
        read_all(r, seq![FrameStep::Begin(d)] + body + seq![FrameStep::End], hdr) == (Reading {
            passes: if d.kind == PassKind::Prepass {
                r.passes
            } else {
                r.passes + 1
            },
            ..r
        }),
{
    let begin = seq![FrameStep::Begin(d)];
    read_one(r, FrameStep::Begin(d), hdr);
    read_all_joins(r, begin, body, hdr);
    draws_stay_inside(read(r, FrameStep::Begin(d), hdr), body, hdr);
    read_push(r, begin + body, FrameStep::End, hdr);
}

proof fn segment_reads_fine(
    rend: &Renderer,
    lists: &FrameLists,
    ops: Seq<Plan3dOp>,
    start: int,
    end: int,
    clear: bool,
    toned: bool,
    r: Reading,
)
    requires
        r.fine,
        !r.open,
        clear == (r.passes == 0),
        toned == (r.toned > 0),
        toned ==> start > 0,
        toned ==> rend.hdr_enabled,
    ensures
        ({
            let after = read_all(
                r,
                rend.segment_steps(lists, ops, start, end, clear, toned),
                rend.hdr_enabled,
            );
            after.fine && !after.open && after.toned == r.toned && after.passes > 0
        }),
{
    let hdr = rend.hdr_enabled;
    reveal(Renderer::segment_steps);
    let a = rend.prepass_steps(lists, ops, start, end);
    let b = rend.color_steps(lists, ops, start, end, clear, toned);
    let c = rend.water_steps(lists, ops, start, end, toned);
    let d = rend.flat_steps(lists, ops, start, end, toned);
    read_all_joins(r, a + b + c, d, hdr);
    read_all_joins(r, a + b, c, hdr);
    read_all_joins(r, a, b, hdr);
    prepass_reads_fine(rend, lists, ops, start, end, r);
    let r1 = read_all(r, a, hdr);
    color_reads_fine(rend, lists, ops, start, end, clear, toned, r1);
    let r2 = read_all(r1, b, hdr);
    water_reads_fine(rend, lists, ops, start, end, toned, r2);
    let r3 = read_all(r2, c, hdr);
    flat_reads_fine(rend, lists, ops, start, end, toned, r3);
}

proof fn prepass_reads_fine(
    rend: &Renderer,
    lists: &FrameLists,
    ops: Seq<Plan3dOp>,
    start: int,
    end: int,
    r: Reading,
)
    requires
        r.fine,
        !r.open,
        start == 0 ==> r.toned == 0,
    ensures
        read_all(r, rend.prepass_steps(lists, ops, start, end), rend.hdr_enabled) == r,
{
    let hdr = rend.hdr_enabled;
    reveal(Renderer::prepass_steps);
    if rend.prepassed(start) {
        let f = |op: Plan3dOp| lists.world_step(op, true);
        spread_draws(f, ops, start, end);
        let camera = lists.offset(
            main_camera(lists.terrain_batches@, lists.draws3d@),
        );
        let body = spread(f, ops, start, end) + if_so(
            rend.draws_world(start),
            FrameStep::World { camera_offset: camera },
        );
        let desc = PassDesc {
            kind: PassKind::Prepass,
            target: FrameTarget::Scene,
            clear: true,
            depth: DepthUse::Clear(DepthTarget::Scene),
        };
        read_pass(r, desc, body, hdr);
        let pass = seq![FrameStep::Begin(desc)] + body + seq![FrameStep::End];
        read_push(r, pass, FrameStep::Occlusion, hdr);
        assert(rend.prepass_steps(lists, ops, start, end) =~= pass + seq![FrameStep::Occlusion]);
    }
}

proof fn color_reads_fine(
    rend: &Renderer,
    lists: &FrameLists,
    ops: Seq<Plan3dOp>,
    start: int,
    end: int,
    clear: bool,
    toned: bool,
    r: Reading,
)
    requires
        r.fine,
        !r.open,
        clear == (r.passes == 0),
        toned == (r.toned > 0),
    ensures
        read_all(
            r,
            rend.color_steps(lists, ops, start, end, clear, toned),
            rend.hdr_enabled,
        ) == (Reading { passes: r.passes + 1, ..r }),
{
    let hdr = rend.hdr_enabled;
    reveal(Renderer::color_steps);
    let f = |op: Plan3dOp| lists.world_step(op, false);
    spread_draws(f, ops, start, end);
    let camera = lists.offset(main_camera(lists.terrain_batches@, lists.draws3d@));
    let depth = rend.depth_target(toned);
    let body = if_so(rend.draws_world(start), FrameStep::World { camera_offset: camera }) + spread(
        f,
        ops,
        start,
        end,
    ) + if_so(
        rend.draws_world(start) && rend.cull_debug_draw,
        FrameStep::CullSpheres { camera_offset: camera },
    );
    let desc = PassDesc {
        kind: PassKind::Color { depth_complete: rend.prepassed(start) },
        target: if toned {
            FrameTarget::Display
        } else {
            FrameTarget::Scene
        },
        clear,
        depth: if rend.prepassed(start) {
            DepthUse::Load(depth)
        } else {
            DepthUse::Clear(depth)
        },
    };
    read_pass(r, desc, body, hdr);
    assert(rend.color_steps(lists, ops, start, end, clear, toned) =~= seq![FrameStep::Begin(desc)]
        + body + seq![FrameStep::End]);
}

proof fn water_reads_fine(
    rend: &Renderer,
    lists: &FrameLists,
    ops: Seq<Plan3dOp>,
    start: int,
    end: int,
    toned: bool,
    r: Reading,
)
    requires
        r.fine,
        !r.open,
        r.passes > 0,
        toned == (r.toned > 0),
    ensures
        ({
            let after = read_all(
                r,
                rend.water_steps(lists, ops, start, end, toned),
                rend.hdr_enabled,
            );
            after.fine && !after.open && after.toned == r.toned && after.passes > 0
        }),
{
    let hdr = rend.hdr_enabled;
    reveal(Renderer::water_steps);
    if any_in(|op: Plan3dOp| op is Water, ops, start, end) && !toned {
        let lend = seq![FrameStep::LendDepth];
        read_one(r, FrameStep::LendDepth, hdr);
        if lists.cameras_bound {
            let f = |op: Plan3dOp| lists.water_step(op);
            spread_draws(f, ops, start, end);
            let desc = PassDesc {
                kind: PassKind::Water,
                target: FrameTarget::Scene,
                clear: false,
                depth: DepthUse::ReadOnly(DepthTarget::Scene),
            };
            let body = spread(f, ops, start, end);
            let pass = seq![FrameStep::Begin(desc)] + body + seq![FrameStep::End];
            read_pass(r, desc, body, hdr);
            read_all_joins(r, lend, pass, hdr);
            assert(rend.water_steps(lists, ops, start, end, toned) =~= lend + pass);
        } else {
            assert(rend.water_steps(lists, ops, start, end, toned) =~= lend);
        }
    }
}

proof fn flat_reads_fine(
    rend: &Renderer,
    lists: &FrameLists,
    ops: Seq<Plan3dOp>,
    start: int,
    end: int,
    toned: bool,
    r: Reading,
)
    requires
        r.fine,
        !r.open,
        r.passes > 0,
        toned == (r.toned > 0),
    ensures
        ({
            let after = read_all(
                r,
                rend.flat_steps(lists, ops, start, end, toned),
                rend.hdr_enabled,
            );
            after.fine && !after.open && after.toned == r.toned && after.passes > 0
        }),
{
    let hdr = rend.hdr_enabled;
    reveal(Renderer::flat_steps);
    if any_in(|op: Plan3dOp| op is Draw2D, ops, start, end) {
        let f = |op: Plan3dOp| lists.flat_step(op, toned);
        spread_draws(f, ops, start, end);
        let desc = PassDesc {
            kind: PassKind::Flat,
            target: if toned {
                FrameTarget::Display
            } else {
                FrameTarget::Scene
            },
            clear: false,
            depth: DepthUse::Load(rend.depth_target(toned)),
        };
        read_pass(r, desc, spread(f, ops, start, end), hdr);
    }
}

proof fn tonemap_reads_fine(rend: &Renderer, r: Reading)
    requires
        r.fine,
        !r.open,
    ensures
        read_all(r, rend.tonemap_steps(), rend.hdr_enabled) == (Reading {
            toned: r.toned + 1,
            ..r
        }),
{
    let hdr = rend.hdr_enabled;
    let join = if_so(rend.hdr is Some && rend.sample_count > 1, FrameStep::JoinSamples);
    let bloom = if_so(float_lt(0, rend.bloom_intensity), FrameStep::Bloom);
    read_one(r, FrameStep::JoinSamples, hdr);
    read_one(r, FrameStep::Bloom, hdr);
    assert(read_all(r, join, hdr) == r);
    read_all_joins(r, join, bloom, hdr);
    assert(read_all(r, join + bloom, hdr) == r);
    read_push(r, join + bloom, FrameStep::Exposure, hdr);
    read_push(r, join + bloom + seq![FrameStep::Exposure], FrameStep::Tonemap, hdr);
    assert(rend.tonemap_steps() =~= join + bloom + seq![FrameStep::Exposure] + seq![
        FrameStep::Tonemap,
    ]);
}

pub(crate) proof fn segment_end_bounds(ops: Seq<Plan3dOp>, start: int)
    requires
        0 <= start <= ops.len(),
    ensures
        start <= segment_end(ops, start) <= ops.len(),
        segment_end(ops, start) < ops.len() ==> ends_segment(ops[segment_end(ops, start)]),
        forall|i: int| start <= i < segment_end(ops, start) ==> !ends_segment(#[trigger] ops[i]),
    decreases ops.len() - start,
{
    if start < ops.len() && !ends_segment(ops[start]) {
        segment_end_bounds(ops, start + 1);
    }
}

proof fn stretches_read_fine(
    rend: &Renderer,
    lists: &FrameLists,
    ops: Seq<Plan3dOp>,
    start: int,
    clear: bool,
    toned: bool,
    r: Reading,
)
    requires
        0 <= start <= ops.len(),
        r.fine,
        !r.open,
        clear == (r.passes == 0),
        toned == (r.toned > 0),
        toned ==> start > 0 && rend.hdr_enabled,
        r.toned <= 1,
    ensures
        ({
            let after = read_all(
                r,
                rend.stretches(lists, ops, start, clear, toned),
                rend.hdr_enabled,
            );
            after.fine && !after.open && after.passes > 0 && after.toned == if rend.hdr_enabled {
                1nat
            } else {
                0nat
            }
        }),
    decreases ops.len() - start,
{
    let hdr = rend.hdr_enabled;
    segment_end_bounds(ops, start);
    let end = segment_end(ops, start);
    let steps = rend.segment_steps(lists, ops, start, end, clear, toned);
    segment_reads_fine(rend, lists, ops, start, end, clear, toned, r);
    let r1 = read_all(r, steps, hdr);
    tonemap_reads_fine(rend, r1);
    if end >= ops.len() {
        let last = if hdr && !toned {
            rend.tonemap_steps()
        } else {
            Seq::empty()
        };
        read_all_joins(r, steps, last, hdr);
    } else {
        let tones = ops[end] == Plan3dOp::Resolve && hdr && !toned;
        let tail = if tones {
            rend.tonemap_steps()
        } else {
            Seq::empty()
        };
        read_all_joins(r, steps, tail, hdr);
        let r2 = read_all(r, steps + tail, hdr);
        stretches_read_fine(rend, lists, ops, end + 1, false, toned || tones, r2);
        read_all_joins(
            r,
            steps + tail,
            rend.stretches(lists, ops, end + 1, false, toned || tones),
            hdr,
        );
    }
}

/// Every frame is in order: passes do not overlap and hold all draws; the first pass that draws
/// colour clears and no other does; a scene with a target of its own is toned exactly once, the
/// scene being drawn before that and the screen after; otherwise nothing is toned.
pub proof fn a_frame_is_in_order(rend: &Renderer, lists: &FrameLists, ops: Seq<Plan3dOp>)
    ensures
        ({
            let start = Reading { open: false, toned: 0, passes: 0, fine: true };
            let after = read_all(start, rend.frame_steps(lists, ops), rend.hdr_enabled);
            after.fine && !after.open && after.passes > 0 && after.toned == if rend.hdr_enabled {
                1nat
            } else {
                0nat
            }
        }),
{
    let hdr = rend.hdr_enabled;
    let r = Reading { open: false, toned: 0, passes: 0, fine: true };
    let a = rend.opening_steps(lists);
    let b = rend.stretches(lists, ops, 0, !rend.draws_sky(lists), false);
    let c = rend.overlay_steps(lists);
    read_all_joins(r, a + b, c, hdr);
    read_all_joins(r, a, b, hdr);
    opening_reads_fine(rend, lists);
    let r1 = read_all(r, a, hdr);
    stretches_read_fine(rend, lists, ops, 0, !rend.draws_sky(lists), false, r1);
    let r2 = read_all(r1, b, hdr);
    if lists.overlay_draws > 0 {
        let desc = PassDesc {
            kind: PassKind::Overlay,
            target: FrameTarget::Display,
            clear: false,
            depth: DepthUse::Without,
        };
        let begin = seq![FrameStep::Begin(desc)];
        read_one(r2, FrameStep::Begin(desc), hdr);
        read_push(r2, begin, FrameStep::Overlay, hdr);
        read_push(r2, begin + seq![FrameStep::Overlay], FrameStep::End, hdr);
        assert(c =~= begin + seq![FrameStep::Overlay] + seq![FrameStep::End]);
    }
}

proof fn opening_reads_fine(rend: &Renderer, lists: &FrameLists)
    ensures
        ({
            let r = Reading { open: false, toned: 0, passes: 0, fine: true };
            read_all(r, rend.opening_steps(lists), rend.hdr_enabled) == (Reading {
                passes: if rend.draws_sky(lists) {
                    1
                } else {
                    0
                },
                ..r
            })
        }),
{
    let hdr = rend.hdr_enabled;
    let r = Reading { open: false, toned: 0, passes: 0, fine: true };
    let e = Seq::<FrameStep>::empty();
    let s1 = e + seq![FrameStep::SkinBake];
    let s2 = s1 + seq![FrameStep::Cull];
    let s3 = s2 + seq![FrameStep::CullShadows];
    let s4 = s3 + seq![FrameStep::Shadows];
    read_push(r, e, FrameStep::SkinBake, hdr);
    read_push(r, s1, FrameStep::Cull, hdr);
    read_push(r, s2, FrameStep::CullShadows, hdr);
    read_push(r, s3, FrameStep::Shadows, hdr);
    let t = if_so(lists.cameras > 0, FrameStep::TerrainShadow);
    read_one(r, FrameStep::TerrainShadow, hdr);
    assert(read_all(r, t, hdr) == r);
    read_all_joins(r, s4, t, hdr);
    let s5 = s4 + t;
    if rend.draws_sky(lists) {
        let camera = main_camera(lists.terrain_batches@, lists.draws3d@) as usize;
        let desc = PassDesc {
            kind: PassKind::Sky,
            target: FrameTarget::Scene,
            clear: true,
            depth: DepthUse::Without,
        };
        let s6 = s5 + seq![FrameStep::SkyTables { camera }];
        let s7 = s6 + seq![FrameStep::Begin(desc)];
        let s8 = s7 + seq![FrameStep::SkyDraw];
        let s9 = s8 + seq![FrameStep::End];
        read_push(r, s5, FrameStep::SkyTables { camera }, hdr);
        read_push(r, s6, FrameStep::Begin(desc), hdr);
        read_push(r, s7, FrameStep::SkyDraw, hdr);
        read_push(r, s8, FrameStep::End, hdr);
        assert(rend.opening_steps(lists) =~= s9);
    } else {
        assert(rend.opening_steps(lists) =~= s5);
    }
}

/// What `f` makes of all steps of a frame.
pub open spec fn collected<X>(f: spec_fn(FrameStep) -> Seq<X>, steps: Seq<FrameStep>) -> Seq<X>
    decreases steps.len(),
{
    if steps.len() == 0 {
        Seq::empty()
    } else {
        collected(f, steps.drop_last()) + f(steps.last())
    }
}

pub(crate) proof fn collected_joins<X>(
    f: spec_fn(FrameStep) -> Seq<X>,
    a: Seq<FrameStep>,
    b: Seq<FrameStep>,
)
    ensures
        collected(f, a + b) == collected(f, a) + collected(f, b),
    decreases b.len(),
{
    if b.len() == 0 {
        assert(a + b =~= a);
        assert(collected(f, a) + Seq::<X>::empty() =~= collected(f, a));
    } else {
        assert((a + b).drop_last() =~= a + b.drop_last());
        collected_joins(f, a, b.drop_last());
        assert(collected(f, a) + (collected(f, b.drop_last()) + f(b.last())) =~= (collected(f, a)
            + collected(f, b.drop_last())) + f(b.last()));
    }
}

pub(crate) proof fn collected_nothing<X>(f: spec_fn(FrameStep) -> Seq<X>, steps: Seq<FrameStep>)
    requires
        forall|i: int| 0 <= i < steps.len() ==> f(#[trigger] steps[i]) == Seq::<X>::empty(),
    ensures
        collected(f, steps) == Seq::<X>::empty(),
    decreases steps.len(),
{
    if steps.len() > 0 {
        assert forall|i: int| 0 <= i < steps.drop_last().len() implies f(
            #[trigger] steps.drop_last()[i],
        ) == Seq::<X>::empty() by {
            assert(steps.drop_last()[i] == steps[i]);
        }
        collected_nothing(f, steps.drop_last());
        assert(f(steps[steps.len() - 1]) == Seq::<X>::empty());
        assert(collected(f, steps) =~= Seq::<X>::empty());
    }
}

pub(crate) proof fn collected_spread<X>(
    f: spec_fn(FrameStep) -> Seq<X>,
    g: spec_fn(Plan3dOp) -> Seq<FrameStep>,
    h: spec_fn(Plan3dOp) -> Seq<X>,
    ops: Seq<Plan3dOp>,
    from: int,
    upto: int,
)
    requires
        forall|i: int|
            from <= i < upto ==> collected(f, g(#[trigger] ops[i])) == h(ops[i]),
    ensures
        collected(f, spread(g, ops, from, upto)) == spread(h, ops, from, upto),
    decreases upto - from,
{
    if upto > from {
        collected_spread(f, g, h, ops, from, upto - 1);
        collected_joins(f, spread(g, ops, from, upto - 1), g(ops[upto - 1]));
        assert(collected(f, g(ops[upto - 1])) == h(ops[upto - 1]));
    }
}

pub(crate) proof fn spread_joins<X>(
    h: spec_fn(Plan3dOp) -> Seq<X>,
    ops: Seq<Plan3dOp>,
    a: int,
    b: int,
    c: int,
)
    requires
        a <= b <= c,
    ensures
        spread(h, ops, a, c) == spread(h, ops, a, b) + spread(h, ops, b, c),
    decreases c - b,
{
    if b == c {
        assert(spread(h, ops, a, b) + Seq::<X>::empty() =~= spread(h, ops, a, b));
    } else {
        spread_joins(h, ops, a, b, c - 1);
        assert(spread(h, ops, a, b) + (spread(h, ops, b, c - 1) + h(ops[c - 1])) =~= (spread(
            h,
            ops,
            a,
            b,
        ) + spread(h, ops, b, c - 1)) + h(ops[c - 1]));
    }
}

/// What a whole frame makes of its plan, if each stretch makes `h` of its part, and nothing else
/// counts.
proof fn stretches_collect<X>(
    rend: &Renderer,
    lists: &FrameLists,
    ops: Seq<Plan3dOp>,
    start: int,
    clear: bool,
    toned: bool,
    f: spec_fn(FrameStep) -> Seq<X>,
    h: spec_fn(Plan3dOp) -> Seq<X>,
)
    requires
        0 <= start <= ops.len(),
        forall|a: int, b: int, c: bool, t: bool|
            0 <= a <= b <= ops.len() ==> collected(
                f,
                #[trigger] rend.segment_steps(lists, ops, a, b, c, t),
            ) == spread(h, ops, a, b),
        h(Plan3dOp::ClearDepth) == Seq::<X>::empty(),
        h(Plan3dOp::Resolve) == Seq::<X>::empty(),
        collected(f, rend.tonemap_steps()) == Seq::<X>::empty(),
    ensures
        collected(f, rend.stretches(lists, ops, start, clear, toned)) == spread(
            h,
            ops,
            start,
            ops.len() as int,
        ),
    decreases ops.len() - start,
{
    segment_end_bounds(ops, start);
    let end = segment_end(ops, start);
    let steps = rend.segment_steps(lists, ops, start, end, clear, toned);
    let hdr = rend.hdr_enabled;
    assert(collected(f, Seq::<FrameStep>::empty()) == Seq::<X>::empty());
    if end >= ops.len() {
        let last = if hdr && !toned {
            rend.tonemap_steps()
        } else {
            Seq::empty()
        };
        collected_joins(f, steps, last);
        assert(collected(f, steps) + Seq::<X>::empty() =~= collected(f, steps));
    } else {
        let tones = ops[end] == Plan3dOp::Resolve && hdr && !toned;
        let tail = if tones {
            rend.tonemap_steps()
        } else {
            Seq::empty()
        };
        let rest = rend.stretches(lists, ops, end + 1, false, toned || tones);
        stretches_collect(rend, lists, ops, end + 1, false, toned || tones, f, h);
        collected_joins(f, steps + tail, rest);
        collected_joins(f, steps, tail);
        let len = ops.len() as int;
        spread_joins(h, ops, start, end, len);
        spread_joins(h, ops, end, end + 1, len);
        assert(spread(h, ops, end, end) == Seq::<X>::empty());
        assert(spread(h, ops, end, end + 1) =~= Seq::<X>::empty());
        assert(collected(f, steps) + Seq::<X>::empty() =~= collected(f, steps));
        assert(spread(h, ops, end, len) =~= spread(h, ops, end + 1, len));
    }
}

/// A mesh or a piece of ground, drawn in colour.
pub open spec fn in_color(step: FrameStep) -> Seq<FrameStep> {
    match step {
        FrameStep::Mesh { prepass, .. } => if_so(!prepass, step),
        FrameStep::Ground { prepass, .. } => if_so(!prepass, step),
        _ => Seq::empty(),
    }
}

/// What is drawn in colour for one step of the plan.
pub open spec fn color_draw(lists: &FrameLists, op: Plan3dOp) -> Seq<FrameStep> {
    collected(|s: FrameStep| in_color(s), lists.world_step(op, false))
}

/// A flat batch.
pub open spec fn flat_of(step: FrameStep) -> Seq<u32> {
    match step {
        FrameStep::Flat { batch, .. } => seq![batch],
        _ => Seq::empty(),
    }
}

/// The flat batch of one step of the plan.
pub open spec fn flat_draw(lists: &FrameLists, op: Plan3dOp) -> Seq<u32> {
    match op {
        Plan3dOp::Draw2D(arg) => if arg < lists.batches {
            seq![arg]
        } else {
            Seq::empty()
        },
        _ => Seq::empty(),
    }
}

pub(crate) proof fn collected_one<X>(f: spec_fn(FrameStep) -> Seq<X>, s: FrameStep)
    ensures
        collected(f, seq![s]) == f(s),
{
    let one = seq![s];
    assert(one.drop_last() =~= Seq::<FrameStep>::empty());
    assert(collected(f, one.drop_last()) == Seq::<X>::empty());
    assert(Seq::<X>::empty() + f(s) =~= f(s));
}

pub(crate) proof fn spread_makes_nothing<X>(
    f: spec_fn(FrameStep) -> Seq<X>,
    g: spec_fn(Plan3dOp) -> Seq<FrameStep>,
    ops: Seq<Plan3dOp>,
    from: int,
    upto: int,
)
    requires
        forall|op: Plan3dOp, i: int|
            0 <= i < g(op).len() ==> f(#[trigger] g(op)[i]) == Seq::<X>::empty(),
    ensures
        collected(f, spread(g, ops, from, upto)) == Seq::<X>::empty(),
    decreases upto - from,
{
    if upto > from {
        spread_makes_nothing(f, g, ops, from, upto - 1);
        collected_joins(f, spread(g, ops, from, upto - 1), g(ops[upto - 1]));
        collected_nothing(f, g(ops[upto - 1]));
        assert(Seq::<X>::empty() + Seq::<X>::empty() =~= Seq::<X>::empty());
    }
}

/// Nothing counts of a stretch but what is drawn for the steps of the plan.
pub(crate) open spec fn counts_steps_only<X>(f: spec_fn(FrameStep) -> Seq<X>) -> bool {
    forall|s: FrameStep|
        (s matches FrameStep::Begin(d) && !(d.kind is Color)) || s is World || s is CullSpheres
            || s is End || s is Occlusion
            || s is LendDepth ==> #[trigger] f(s) == Seq::<X>::empty()
}

pub(crate) proof fn framed_steps<X>(
    f: spec_fn(FrameStep) -> Seq<X>,
    before: Seq<FrameStep>,
    body: Seq<FrameStep>,
    after: Seq<FrameStep>,
)
    requires
        forall|i: int| 0 <= i < before.len() ==> f(#[trigger] before[i]) == Seq::<X>::empty(),
        forall|i: int| 0 <= i < after.len() ==> f(#[trigger] after[i]) == Seq::<X>::empty(),
    ensures
        collected(f, before + body + after) == collected(f, body),
{
    collected_joins(f, before + body, after);
    collected_joins(f, before, body);
    collected_nothing(f, before);
    collected_nothing(f, after);
    let all = collected(f, body);
    assert(Seq::<X>::empty() + all + Seq::<X>::empty() =~= all);
}

pub(crate) proof fn prepass_collects<X>(
    rend: &Renderer,
    lists: &FrameLists,
    ops: Seq<Plan3dOp>,
    a: int,
    b: int,
    f: spec_fn(FrameStep) -> Seq<X>,
)
    requires
        counts_steps_only(f),
    ensures
        collected(f, rend.prepass_steps(lists, ops, a, b)) == if rend.prepassed(a) {
            collected(f, spread(|op: Plan3dOp| lists.world_step(op, true), ops, a, b))
        } else {
            Seq::<X>::empty()
        },
{
    reveal(Renderer::prepass_steps);
    let steps = rend.prepass_steps(lists, ops, a, b);
    if rend.prepassed(a) {
        let camera = lists.offset(main_camera(lists.terrain_batches@, lists.draws3d@));
        let body = spread(|op: Plan3dOp| lists.world_step(op, true), ops, a, b);
        let after = if_so(rend.draws_world(a), FrameStep::World { camera_offset: camera }) + seq![
            FrameStep::End,
            FrameStep::Occlusion,
        ];
        framed_steps(f, seq![steps[0]], body, after);
        assert(steps =~= seq![steps[0]] + body + after);
    }
}

pub(crate) proof fn color_collects<X>(
    rend: &Renderer,
    lists: &FrameLists,
    ops: Seq<Plan3dOp>,
    a: int,
    b: int,
    clear: bool,
    toned: bool,
    f: spec_fn(FrameStep) -> Seq<X>,
)
    requires
        counts_steps_only(f),
    ensures
        rend.color_steps(lists, ops, a, b, clear, toned).len() > 0,
        rend.color_steps(lists, ops, a, b, clear, toned)[0] matches FrameStep::Begin(d)
            && d.kind is Color,
        collected(f, rend.color_steps(lists, ops, a, b, clear, toned)) == f(
            rend.color_steps(lists, ops, a, b, clear, toned)[0],
        ) + collected(f, spread(|op: Plan3dOp| lists.world_step(op, false), ops, a, b)),
{
    reveal(Renderer::color_steps);
    let steps = rend.color_steps(lists, ops, a, b, clear, toned);
    let camera = lists.offset(main_camera(lists.terrain_batches@, lists.draws3d@));
    let before = if_so(rend.draws_world(a), FrameStep::World { camera_offset: camera });
    let body = spread(|op: Plan3dOp| lists.world_step(op, false), ops, a, b);
    let after = if_so(
        rend.draws_world(a) && rend.cull_debug_draw,
        FrameStep::CullSpheres { camera_offset: camera },
    ) + seq![FrameStep::End];
    framed_steps(f, before, body, after);
    collected_joins(f, seq![steps[0]], before + body + after);
    collected_one(f, steps[0]);
    assert(steps =~= seq![steps[0]] + (before + body + after));
}

pub(crate) proof fn water_collects<X>(
    rend: &Renderer,
    lists: &FrameLists,
    ops: Seq<Plan3dOp>,
    a: int,
    b: int,
    toned: bool,
    f: spec_fn(FrameStep) -> Seq<X>,
)
    requires
        counts_steps_only(f),
    ensures
        collected(f, rend.water_steps(lists, ops, a, b, toned)) == if lists.cameras_bound
            && !toned {
            collected(f, spread(|op: Plan3dOp| lists.water_step(op), ops, a, b))
        } else {
            Seq::<X>::empty()
        },
{
    reveal(Renderer::water_steps);
    let steps = rend.water_steps(lists, ops, a, b, toned);
    let g = |op: Plan3dOp| lists.water_step(op);
    let is_water = |op: Plan3dOp| op is Water;
    if any_in(is_water, ops, a, b) {
        if !toned {
            if lists.cameras_bound {
                let before = seq![steps[0], steps[1]];
                framed_steps(f, before, spread(g, ops, a, b), seq![FrameStep::End]);
                assert(steps =~= before + spread(g, ops, a, b) + seq![FrameStep::End]);
            } else {
                collected_nothing(f, steps);
            }
        }
    } else {
        assert forall|i: int| a <= i < b implies g(#[trigger] ops[i]) == Seq::<
            FrameStep,
        >::empty() by {
            assert(!is_water(ops[i]));
        }
        spread_of_nothing(g, ops, a, b);
    }
}

pub(crate) proof fn flat_collects<X>(
    rend: &Renderer,
    lists: &FrameLists,
    ops: Seq<Plan3dOp>,
    a: int,
    b: int,
    toned: bool,
    f: spec_fn(FrameStep) -> Seq<X>,
)
    requires
        counts_steps_only(f),
    ensures
        collected(f, rend.flat_steps(lists, ops, a, b, toned)) == collected(
            f,
            spread(|op: Plan3dOp| lists.flat_step(op, toned), ops, a, b),
        ),
{
    reveal(Renderer::flat_steps);
    let steps = rend.flat_steps(lists, ops, a, b, toned);
    let g = |op: Plan3dOp| lists.flat_step(op, toned);
    let is_flat = |op: Plan3dOp| op is Draw2D;
    if any_in(is_flat, ops, a, b) {
        framed_steps(f, seq![steps[0]], spread(g, ops, a, b), seq![FrameStep::End]);
        assert(steps =~= seq![steps[0]] + spread(g, ops, a, b) + seq![FrameStep::End]);
    } else {
        assert forall|i: int| a <= i < b implies g(#[trigger] ops[i]) == Seq::<
            FrameStep,
        >::empty() by {
            assert(!is_flat(ops[i]));
        }
        spread_of_nothing(g, ops, a, b);
    }
}

pub(crate) proof fn segment_collects<X>(
    rend: &Renderer,
    lists: &FrameLists,
    ops: Seq<Plan3dOp>,
    a: int,
    b: int,
    clear: bool,
    toned: bool,
    f: spec_fn(FrameStep) -> Seq<X>,
)
    ensures
        collected(f, rend.segment_steps(lists, ops, a, b, clear, toned)) == collected(
            f,
            rend.prepass_steps(lists, ops, a, b),
        ) + collected(f, rend.color_steps(lists, ops, a, b, clear, toned)) + collected(
            f,
            rend.water_steps(lists, ops, a, b, toned),
        ) + collected(f, rend.flat_steps(lists, ops, a, b, toned)),
{
    reveal(Renderer::segment_steps);
    let pre = rend.prepass_steps(lists, ops, a, b);
    let col = rend.color_steps(lists, ops, a, b, clear, toned);
    let wat = rend.water_steps(lists, ops, a, b, toned);
    let fla = rend.flat_steps(lists, ops, a, b, toned);
    collected_joins(f, pre + col + wat, fla);
    collected_joins(f, pre + col, wat);
    collected_joins(f, pre, col);
}

proof fn segment_draws_its_world(
    rend: &Renderer,
    lists: &FrameLists,
    ops: Seq<Plan3dOp>,
    a: int,
    b: int,
    clear: bool,
    toned: bool,
)
    ensures
        collected(
            |s: FrameStep| in_color(s),
            rend.segment_steps(lists, ops, a, b, clear, toned),
        ) == spread(|op: Plan3dOp| color_draw(lists, op), ops, a, b),
{
    let f = |s: FrameStep| in_color(s);
    let h = |op: Plan3dOp| color_draw(lists, op);
    segment_collects(rend, lists, ops, a, b, clear, toned, f);
    prepass_collects(rend, lists, ops, a, b, f);
    color_collects(rend, lists, ops, a, b, clear, toned, f);
    water_collects(rend, lists, ops, a, b, toned, f);
    flat_collects(rend, lists, ops, a, b, toned, f);
    spread_makes_nothing(f, |op: Plan3dOp| lists.world_step(op, true), ops, a, b);
    collected_spread(f, |op: Plan3dOp| lists.world_step(op, false), h, ops, a, b);
    spread_makes_nothing(f, |op: Plan3dOp| lists.water_step(op), ops, a, b);
    spread_makes_nothing(f, |op: Plan3dOp| lists.flat_step(op, toned), ops, a, b);
    let (none, all) = (Seq::<FrameStep>::empty(), spread(h, ops, a, b));
    assert(none + (none + all) + none + none =~= all);
}

proof fn segment_draws_its_flats(
    rend: &Renderer,
    lists: &FrameLists,
    ops: Seq<Plan3dOp>,
    a: int,
    b: int,
    clear: bool,
    toned: bool,
)
    ensures
        collected(
            |s: FrameStep| flat_of(s),
            rend.segment_steps(lists, ops, a, b, clear, toned),
        ) == spread(|op: Plan3dOp| flat_draw(lists, op), ops, a, b),
{
    let f = |s: FrameStep| flat_of(s);
    let h = |op: Plan3dOp| flat_draw(lists, op);
    let g = |op: Plan3dOp| lists.flat_step(op, toned);
    segment_collects(rend, lists, ops, a, b, clear, toned, f);
    prepass_collects(rend, lists, ops, a, b, f);
    color_collects(rend, lists, ops, a, b, clear, toned, f);
    water_collects(rend, lists, ops, a, b, toned, f);
    flat_collects(rend, lists, ops, a, b, toned, f);
    spread_makes_nothing(f, |op: Plan3dOp| lists.world_step(op, true), ops, a, b);
    spread_makes_nothing(f, |op: Plan3dOp| lists.world_step(op, false), ops, a, b);
    spread_makes_nothing(f, |op: Plan3dOp| lists.water_step(op), ops, a, b);
    assert forall|i: int| a <= i < b implies collected(f, g(#[trigger] ops[i])) == h(ops[i]) by {
        if let Plan3dOp::Draw2D(arg) = ops[i] {
            if arg < lists.batches {
                collected_one(f, FrameStep::Flat { batch: arg, display: toned });
            }
        }
    }
    collected_spread(f, g, h, ops, a, b);
    let (none, all) = (Seq::<u32>::empty(), spread(h, ops, a, b));
    assert(none + (none + none) + none + all =~= all);
}

pub(crate) proof fn spread_of_nothing<X>(
    g: spec_fn(Plan3dOp) -> Seq<X>,
    ops: Seq<Plan3dOp>,
    a: int,
    b: int,
)
    requires
        forall|i: int| a <= i < b ==> g(#[trigger] ops[i]) == Seq::<X>::empty(),
    ensures
        spread(g, ops, a, b) == Seq::<X>::empty(),
    decreases b - a,
{
    if b > a {
        spread_of_nothing(g, ops, a, b - 1);
        assert(g(ops[b - 1]) == Seq::<X>::empty());
        assert(Seq::<X>::empty() + Seq::<X>::empty() =~= Seq::<X>::empty());
    }
}

/// A frame draws every mesh and every piece of ground of its plan in colour, once and in order.
pub proof fn a_frame_draws_its_world(rend: &Renderer, lists: &FrameLists, ops: Seq<Plan3dOp>)
    ensures
        collected(|s: FrameStep| in_color(s), rend.frame_steps(lists, ops)) == spread(
            |op: Plan3dOp| color_draw(lists, op),
            ops,
            0,
            ops.len() as int,
        ),
{
    let f = |s: FrameStep| in_color(s);
    let h = |op: Plan3dOp| color_draw(lists, op);
    let a = rend.opening_steps(lists);
    let b = rend.stretches(lists, ops, 0, !rend.draws_sky(lists), false);
    let c = rend.overlay_steps(lists);
    collected_joins(f, a + b, c);
    collected_joins(f, a, b);
    collected_nothing(f, a);
    collected_nothing(f, c);
    collected_nothing(f, rend.tonemap_steps());
    assert forall|x: int, y: int, cl: bool, t: bool| 0 <= x <= y <= ops.len() implies collected(
        f,
        #[trigger] rend.segment_steps(lists, ops, x, y, cl, t),
    ) == spread(h, ops, x, y) by {
        segment_draws_its_world(rend, lists, ops, x, y, cl, t);
    }
    stretches_collect(rend, lists, ops, 0, !rend.draws_sky(lists), false, f, h);
    let all = spread(h, ops, 0, ops.len() as int);
    assert(Seq::<FrameStep>::empty() + all + Seq::<FrameStep>::empty() =~= all);
}

/// A frame draws every flat batch of its plan, once and in order.
pub proof fn a_frame_draws_its_flat_batches(rend: &Renderer, lists: &FrameLists, ops: Seq<Plan3dOp>)
    ensures
        collected(|s: FrameStep| flat_of(s), rend.frame_steps(lists, ops)) == spread(
            |op: Plan3dOp| flat_draw(lists, op),
            ops,
            0,
            ops.len() as int,
        ),
{
    let f = |s: FrameStep| flat_of(s);
    let h = |op: Plan3dOp| flat_draw(lists, op);
    let a = rend.opening_steps(lists);
    let b = rend.stretches(lists, ops, 0, !rend.draws_sky(lists), false);
    let c = rend.overlay_steps(lists);
    collected_joins(f, a + b, c);
    collected_joins(f, a, b);
    collected_nothing(f, a);
    collected_nothing(f, c);
    collected_nothing(f, rend.tonemap_steps());
    assert forall|x: int, y: int, cl: bool, t: bool| 0 <= x <= y <= ops.len() implies collected(
        f,
        #[trigger] rend.segment_steps(lists, ops, x, y, cl, t),
    ) == spread(h, ops, x, y) by {
        segment_draws_its_flats(rend, lists, ops, x, y, cl, t);
    }
    stretches_collect(rend, lists, ops, 0, !rend.draws_sky(lists), false, f, h);
    let all = spread(h, ops, 0, ops.len() as int);
    assert(Seq::<u32>::empty() + all + Seq::<u32>::empty() =~= all);
}

/// A piece of sea.
pub open spec fn sea_of(step: FrameStep) -> Seq<FrameStep> {
    if_so(step is Sea, step)
}

/// Where the plan is toned, from `start` on: at the first step that completes the scene, if the
/// scene has a target of its own; else nowhere.
pub open spec fn toned_at(rend: &Renderer, ops: Seq<Plan3dOp>, start: int) -> int
    decreases ops.len() - start,
{
    if start >= ops.len() || (rend.hdr_enabled && ops[start] == Plan3dOp::Resolve) {
        start
    } else {
        toned_at(rend, ops, start + 1)
    }
}

pub(crate) proof fn toning_follows_a_stretch(
    rend: &Renderer,
    ops: Seq<Plan3dOp>,
    start: int,
    end: int,
)
    requires
        0 <= start <= end <= ops.len(),
        forall|i: int| start <= i < end ==> !ends_segment(#[trigger] ops[i]),
    ensures
        toned_at(rend, ops, start) == toned_at(rend, ops, end),
        end <= toned_at(rend, ops, end) <= ops.len(),
    decreases ops.len() - start,
{
    if start < end {
        assert(!ends_segment(ops[start]));
        toning_follows_a_stretch(rend, ops, start + 1, end);
    } else if end < ops.len() {
        toning_follows_a_stretch(rend, ops, end + 1, end + 1);
    }
}

proof fn segment_draws_its_sea(
    rend: &Renderer,
    lists: &FrameLists,
    ops: Seq<Plan3dOp>,
    a: int,
    b: int,
    clear: bool,
    toned: bool,
)
    ensures
        collected(
            |s: FrameStep| sea_of(s),
            rend.segment_steps(lists, ops, a, b, clear, toned),
        ) == if lists.cameras_bound && !toned {
            spread(|op: Plan3dOp| lists.water_step(op), ops, a, b)
        } else {
            Seq::empty()
        },
{
    let f = |s: FrameStep| sea_of(s);
    let g = |op: Plan3dOp| lists.water_step(op);
    segment_collects(rend, lists, ops, a, b, clear, toned, f);
    prepass_collects(rend, lists, ops, a, b, f);
    color_collects(rend, lists, ops, a, b, clear, toned, f);
    water_collects(rend, lists, ops, a, b, toned, f);
    flat_collects(rend, lists, ops, a, b, toned, f);
    spread_makes_nothing(f, |op: Plan3dOp| lists.world_step(op, true), ops, a, b);
    spread_makes_nothing(f, |op: Plan3dOp| lists.world_step(op, false), ops, a, b);
    spread_makes_nothing(f, |op: Plan3dOp| lists.flat_step(op, toned), ops, a, b);
    assert forall|i: int| a <= i < b implies collected(f, g(#[trigger] ops[i])) == g(ops[i]) by {
        let steps = g(ops[i]);
        if steps.len() > 0 {
            collected_one(f, steps[0]);
            assert(steps =~= seq![steps[0]]);
        }
    }
    collected_spread(f, g, g, ops, a, b);
    let (none, all) = (Seq::<FrameStep>::empty(), spread(g, ops, a, b));
    assert(none + (none + none) + all + none =~= all);
    assert(none + (none + none) + none + none =~= none);
}

proof fn stretches_draw_their_sea(
    rend: &Renderer,
    lists: &FrameLists,
    ops: Seq<Plan3dOp>,
    start: int,
    clear: bool,
    toned: bool,
)
    requires
        0 <= start <= ops.len(),
    ensures
        collected(
            |s: FrameStep| sea_of(s),
            rend.stretches(lists, ops, start, clear, toned),
        ) == if lists.cameras_bound && !toned {
            spread(
                |op: Plan3dOp| lists.water_step(op),
                ops,
                start,
                toned_at(rend, ops, start),
            )
        } else {
            Seq::empty()
        },
    decreases ops.len() - start,
{
    let f = |s: FrameStep| sea_of(s);
    let g = |op: Plan3dOp| lists.water_step(op);
    let none = Seq::<FrameStep>::empty();
    segment_end_bounds(ops, start);
    let end = segment_end(ops, start);
    toning_follows_a_stretch(rend, ops, start, end);
    let steps = rend.segment_steps(lists, ops, start, end, clear, toned);
    segment_draws_its_sea(rend, lists, ops, start, end, clear, toned);
    collected_nothing(f, rend.tonemap_steps());
    assert(collected(f, none) == none);
    if end >= ops.len() {
        let last = if rend.hdr_enabled && !toned {
            rend.tonemap_steps()
        } else {
            Seq::empty()
        };
        collected_joins(f, steps, last);
        assert(collected(f, steps) + none =~= collected(f, steps));
    } else {
        let tones = ops[end] == Plan3dOp::Resolve && rend.hdr_enabled && !toned;
        let tail = if tones {
            rend.tonemap_steps()
        } else {
            Seq::empty()
        };
        let rest = rend.stretches(lists, ops, end + 1, false, toned || tones);
        stretches_draw_their_sea(rend, lists, ops, end + 1, false, toned || tones);
        collected_joins(f, steps + tail, rest);
        collected_joins(f, steps, tail);
        assert(collected(f, steps) + none =~= collected(f, steps));
        if lists.cameras_bound && !toned && !tones {
            let upto = toned_at(rend, ops, end + 1);
            toning_follows_a_stretch(rend, ops, end + 1, end + 1);
            spread_joins(g, ops, start, end, upto);
            spread_joins(g, ops, end, end + 1, upto);
            assert(spread(g, ops, end, end) == none);
            assert(spread(g, ops, end, end + 1) =~= none);
            assert(spread(g, ops, end, upto) =~= spread(g, ops, end + 1, upto));
        } else {
            assert(collected(f, steps) + none =~= collected(f, steps));
        }
    }
}

/// With a camera bound, a frame draws every water batch that its plan has before toning, once and
/// in order; without, and after toning, it draws none.
pub proof fn a_frame_draws_its_water(rend: &Renderer, lists: &FrameLists, ops: Seq<Plan3dOp>)
    ensures
        collected(
            |s: FrameStep| sea_of(s),
            rend.frame_steps(lists, ops),
        ) == if lists.cameras_bound {
            spread(|op: Plan3dOp| lists.water_step(op), ops, 0, toned_at(rend, ops, 0))
        } else {
            Seq::empty()
        },
{
    let f = |s: FrameStep| sea_of(s);
    let a = rend.opening_steps(lists);
    let b = rend.stretches(lists, ops, 0, !rend.draws_sky(lists), false);
    let c = rend.overlay_steps(lists);
    collected_joins(f, a + b, c);
    collected_joins(f, a, b);
    collected_nothing(f, a);
    collected_nothing(f, c);
    stretches_draw_their_sea(rend, lists, ops, 0, !rend.draws_sky(lists), false);
    let all = collected(f, b);
    assert(Seq::<FrameStep>::empty() + all + Seq::<FrameStep>::empty() =~= all);
}

} // verus!
