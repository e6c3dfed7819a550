use crate::frame::{
    if_so, main_camera, segment_end, spread, DepthTarget, DepthUse, FrameLists, FrameStep,
    FrameTarget, PassDesc, PassKind, Renderer,
};
use crate::frame_laws::segment_end_bounds;
use crate::gfx3d::plan::Plan3dOp;
use vstd::prelude::*;

verus! {

// In which order the passes of a frame come, and what each does with depth, read off its steps.

/// The kind of pass begun last.
pub ghost enum Last {
    /// None yet but the sky's.
    Opening,
    Ahead,
    Colour,
    Water,
    Flat,
    Overlay,
}

/// Where a reader of a frame's steps stands.
pub ghost struct Standing {
    pub last: Last,
    /// The depth that the last pass ahead or in colour drew.
    pub depth: DepthTarget,
    /// How many passes in colour were begun.
    pub colours: nat,
    /// The scene is toned.
    pub toned: bool,
    /// What was drawn ahead has been culled by.
    pub occluded: bool,
    /// Water was shown the depth of the last pass in colour.
    pub lent: bool,
    /// Something may be known to be bound for meshes.
    pub known: bool,
    /// Every step so far was in its place.
    pub fine: bool,
}

/// Reading the beginning of a pass.
pub open spec fn begun(o: Standing, d: PassDesc, samples: u32) -> Standing {
    let own = if o.toned && samples > 1 {
        DepthTarget::Display
    } else {
        DepthTarget::Scene
    };
    let target = if o.toned {
        FrameTarget::Display
    } else {
        FrameTarget::Scene
    };
    match d.kind {
        // The sky is behind everything, so it comes first and has no depth.
        PassKind::Sky => Standing {
            known: false,
            fine: o.fine && o.last is Opening && d.target == target && d.clear && d.depth
                == DepthUse::Without,
            ..o
        },
        // What is drawn ahead starts from no depth.
        PassKind::Prepass => Standing {
            last: Last::Ahead,
            depth: DepthTarget::Scene,
            occluded: false,
            known: false,
            fine: o.fine && o.last is Opening && d.target == target && d.clear && d.depth
                == DepthUse::Clear(DepthTarget::Scene),
            ..o
        },
        // Colour goes on with the depth that was drawn just ahead of it; else it starts from none.
        PassKind::Color { depth_complete } => Standing {
            last: Last::Colour,
            depth: own,
            colours: o.colours + 1,
            lent: false,
            known: false,
            fine: o.fine && !(o.last is Overlay) && d.target == target && if o.last is Ahead {
                &&& depth_complete
                &&& o.occluded
                &&& d.depth == DepthUse::Load(o.depth)
                &&& own == o.depth
            } else {
                !depth_complete && d.depth == DepthUse::Clear(own)
            },
            ..o
        },
        // Water lies over the scene's colour, reads its depth, and does not change it.
        PassKind::Water => Standing {
            last: Last::Water,
            known: false,
            fine: o.fine && o.last is Colour && o.lent && !o.toned && d.target == target && d.depth
                == DepthUse::ReadOnly(o.depth),
            ..o
        },
        // What is flat comes last in its stretch, and goes on with its depth.
        PassKind::Flat => Standing {
            last: Last::Flat,
            known: false,
            fine: o.fine && (o.last is Colour || o.last is Water) && d.target == target && d.depth
                == DepthUse::Load(o.depth),
            ..o
        },
        // The overlay lies over everything.
        PassKind::Overlay => Standing {
            last: Last::Overlay,
            known: false,
            fine: o.fine && o.colours > 0 && !(o.last is Overlay) && d.target
                == FrameTarget::Display && d.depth == DepthUse::Without,
            ..o
        },
    }
}

/// Reading one step.
pub open spec fn followed(o: Standing, step: FrameStep, samples: u32) -> Standing {
    match step {
        FrameStep::SkinBake | FrameStep::Cull | FrameStep::CullShadows | FrameStep::Shadows
        | FrameStep::TerrainShadow | FrameStep::SkyTables { .. } | FrameStep::SkyDraw => Standing {
            fine: o.fine && o.last is Opening,
            ..o
        },
        FrameStep::Begin(d) => begun(o, d, samples),
        // What the device culled is drawn once ahead and once in colour, in the first stretch.
        FrameStep::World { .. } => Standing {
            fine: o.fine && (o.last is Ahead || (o.last is Colour && o.colours == 1)),
            ..o
        },
        FrameStep::CullSpheres { .. } => Standing {
            fine: o.fine && o.last is Colour && o.colours == 1,
            ..o
        },
        FrameStep::Mesh { prepass, .. } => Standing {
            known: true,
            fine: o.fine && if prepass {
                o.last is Ahead
            } else {
                o.last is Colour
            },
            ..o
        },
        FrameStep::Forget => Standing { known: false, ..o },
        // Ground binds things of its own, so nothing may be known to be bound for meshes.
        FrameStep::Ground { prepass, .. } => Standing {
            fine: o.fine && !o.known && if prepass {
                o.last is Ahead
            } else {
                o.last is Colour
            },
            ..o
        },
        FrameStep::Sea { .. } => Standing { fine: o.fine && o.last is Water, ..o },
        FrameStep::Flat { display, .. } => Standing {
            fine: o.fine && o.last is Flat && display == o.toned,
            ..o
        },
        FrameStep::End => o,
        FrameStep::Occlusion => Standing {
            occluded: true,
            fine: o.fine && o.last is Ahead,
            ..o
        },
        FrameStep::LendDepth => Standing {
            lent: true,
            fine: o.fine && o.last is Colour && !o.toned,
            ..o
        },
        FrameStep::JoinSamples | FrameStep::Bloom | FrameStep::Exposure => Standing {
            fine: o.fine && !o.toned && o.colours > 0,
            ..o
        },
        FrameStep::Tonemap => Standing {
            toned: true,
            fine: o.fine && !o.toned && o.colours > 0,
            ..o
        },
        FrameStep::Overlay => Standing { fine: o.fine && o.last is Overlay, ..o },
    }
}

/// Reading many steps.
pub open spec fn followed_all(o: Standing, steps: Seq<FrameStep>, samples: u32) -> Standing
    decreases steps.len(),
{
    if steps.len() == 0 {
        o
    } else {
        followed(followed_all(o, steps.drop_last(), samples), steps.last(), samples)
    }
}

proof fn followed_joins(o: Standing, a: Seq<FrameStep>, b: Seq<FrameStep>, samples: u32)
    ensures
        followed_all(o, a + b, samples) == followed_all(followed_all(o, a, samples), b, samples),
    decreases b.len(),
{
    if b.len() == 0 {
        assert(a + b =~= a);
    } else {
        assert((a + b).drop_last() =~= a + b.drop_last());
        followed_joins(o, a, b.drop_last(), samples);
    }
}

proof fn followed_one(o: Standing, s: FrameStep, samples: u32)
    ensures
        followed_all(o, seq![s], samples) == followed(o, s, samples),
{
    assert(seq![s].drop_last() =~= Seq::<FrameStep>::empty());
    assert(followed_all(o, seq![s].drop_last(), samples) == o);
}

proof fn followed_push(o: Standing, a: Seq<FrameStep>, s: FrameStep, samples: u32)
    ensures
        followed_all(o, a + seq![s], samples) == followed(followed_all(o, a, samples), s, samples),
{
    followed_joins(o, a, seq![s], samples);
    followed_one(followed_all(o, a, samples), s, samples);
}

/// The same but for what is known to be bound.
spec fn same_but_known(a: Standing, b: Standing) -> bool {
    a == (Standing { known: a.known, ..b })
}

proof fn a_step_is_in_place(
    lists: &FrameLists,
    op: Plan3dOp,
    prepass: bool,
    o: Standing,
    samples: u32,
)
    requires
        if prepass {
            o.last is Ahead
        } else {
            o.last is Colour
        },
    ensures
        same_but_known(followed_all(o, lists.world_step(op, prepass), samples), o),
{
    let steps = lists.world_step(op, prepass);
    if steps.len() == 1 {
        assert(steps =~= seq![steps[0]]);
        followed_one(o, steps[0], samples);
    } else if steps.len() == 2 {
        assert(steps =~= seq![steps[0]] + seq![steps[1]]);
        followed_one(o, steps[0], samples);
        followed_push(o, seq![steps[0]], steps[1], samples);
    }
}

proof fn world_is_in_place(
    lists: &FrameLists,
    ops: Seq<Plan3dOp>,
    from: int,
    upto: int,
    prepass: bool,
    o: Standing,
    samples: u32,
)
    requires
        if prepass {
            o.last is Ahead
        } else {
            o.last is Colour
        },
    ensures
        same_but_known(
            followed_all(
                o,
                spread(|op: Plan3dOp| lists.world_step(op, prepass), ops, from, upto),
                samples,
            ),
            o,
        ),
    decreases upto - from,
{
    let f = |op: Plan3dOp| lists.world_step(op, prepass);
    if upto > from {
        world_is_in_place(lists, ops, from, upto - 1, prepass, o, samples);
        let head = spread(f, ops, from, upto - 1);
        let steps = f(ops[upto - 1]);
        let now = followed_all(o, head, samples);
        followed_joins(o, head, steps, samples);
        a_step_is_in_place(lists, ops[upto - 1], prepass, now, samples);
    }
}

proof fn steady_steps(
    f: spec_fn(Plan3dOp) -> Seq<FrameStep>,
    ops: Seq<Plan3dOp>,
    from: int,
    upto: int,
    o: Standing,
    samples: u32,
)
    requires
        forall|op: Plan3dOp|
            (#[trigger] f(op)).len() <= 1 && (f(op).len() == 1 ==> followed(o, f(op)[0], samples)
                == o),
    ensures
        followed_all(o, spread(f, ops, from, upto), samples) == o,
    decreases upto - from,
{
    if upto > from {
        steady_steps(f, ops, from, upto - 1, o, samples);
        let head = spread(f, ops, from, upto - 1);
        let steps = f(ops[upto - 1]);
        followed_joins(o, head, steps, samples);
        if steps.len() == 1 {
            assert(steps =~= seq![steps[0]]);
            followed_one(o, steps[0], samples);
        }
    }
}

proof fn prepass_is_in_place(
    rend: &Renderer,
    lists: &FrameLists,
    ops: Seq<Plan3dOp>,
    end: int,
    o: Standing,
)
    requires
        o.fine,
        o.last is Opening,
        !o.toned,
        rend.prepass_enabled,
    ensures
        ({
            let after = followed_all(o, rend.prepass_steps(lists, ops, 0, end), rend.sample_count);
            &&& after.fine
            &&& after.last is Ahead
            &&& after.depth == DepthTarget::Scene
            &&& after.occluded
            &&& after.colours == o.colours
            &&& after.toned == o.toned
        }),
{
    let n = rend.sample_count;
    reveal(Renderer::prepass_steps);
    let camera = lists.offset(main_camera(lists.terrain_batches@, lists.draws3d@));
    let steps = rend.prepass_steps(lists, ops, 0, end);
    let begin = seq![steps[0]];
    let body = spread(|op: Plan3dOp| lists.world_step(op, true), ops, 0, end);
    let world = FrameStep::World { camera_offset: camera };
    let extra = if_so(rend.draws_world(0), world);
    followed_one(o, steps[0], n);
    let o1 = followed(o, steps[0], n);
    followed_joins(o, begin, body, n);
    world_is_in_place(lists, ops, 0, end, true, o1, n);
    let o2 = followed_all(o1, body, n);
    followed_joins(o, begin + body, extra, n);
    followed_one(o2, world, n);
    let o3 = followed_all(o2, extra, n);
    assert(o3 == o2);
    followed_push(o, begin + body + extra, FrameStep::End, n);
    followed_push(o, begin + body + extra + seq![FrameStep::End], FrameStep::Occlusion, n);
    assert(steps =~= begin + body + extra + seq![FrameStep::End] + seq![FrameStep::Occlusion]);
}

proof fn colour_is_in_place(
    rend: &Renderer,
    lists: &FrameLists,
    ops: Seq<Plan3dOp>,
    start: int,
    end: int,
    clear: bool,
    o: Standing,
)
    requires
        o.fine,
        !(o.last is Overlay),
        rend.prepassed(start) == (o.last is Ahead),
        o.last is Ahead ==> o.occluded && o.depth == DepthTarget::Scene && !o.toned,
        start == 0 <==> o.colours == 0,
    ensures
        ({
            let after = followed_all(
                o,
                rend.color_steps(lists, ops, start, end, clear, o.toned),
                rend.sample_count,
            );
            &&& after.fine
            &&& after.last is Colour
            &&& after.depth == if o.toned && rend.sample_count > 1 {
                DepthTarget::Display
            } else {
                DepthTarget::Scene
            }
            &&& after.colours == o.colours + 1
            &&& after.toned == o.toned
        }),
{
    let n = rend.sample_count;
    reveal(Renderer::color_steps);
    let camera = lists.offset(main_camera(lists.terrain_batches@, lists.draws3d@));
    let steps = rend.color_steps(lists, ops, start, end, clear, o.toned);
    let begin = seq![steps[0]];
    let world = FrameStep::World { camera_offset: camera };
    let extra = if_so(rend.draws_world(start), world);
    let body = spread(|op: Plan3dOp| lists.world_step(op, false), ops, start, end);
    let balls = FrameStep::CullSpheres { camera_offset: camera };
    let shown = if_so(rend.draws_world(start) && rend.cull_debug_draw, balls);
    followed_one(o, steps[0], n);
    let o1 = followed(o, steps[0], n);
    followed_joins(o, begin, extra, n);
    followed_one(o1, world, n);
    let o2 = followed_all(o1, extra, n);
    assert(o2 == o1);
    followed_joins(o, begin + extra, body, n);
    world_is_in_place(lists, ops, start, end, false, o2, n);
    let o3 = followed_all(o2, body, n);
    followed_joins(o, begin + extra + body, shown, n);
    followed_one(o3, balls, n);
    assert(followed_all(o3, shown, n) == o3);
    followed_push(o, begin + extra + body + shown, FrameStep::End, n);
    assert(steps =~= begin + extra + body + shown + seq![FrameStep::End]);
}

proof fn water_is_in_place(
    rend: &Renderer,
    lists: &FrameLists,
    ops: Seq<Plan3dOp>,
    start: int,
    end: int,
    o: Standing,
)
    requires
        o.fine,
        o.last is Colour,
        o.toned || o.depth == DepthTarget::Scene,
    ensures
        ({
            let after = followed_all(
                o,
                rend.water_steps(lists, ops, start, end, o.toned),
                rend.sample_count,
            );
            &&& after.fine
            &&& after.last is Colour || after.last is Water
            &&& after.depth == o.depth
            &&& after.colours == o.colours
            &&& after.toned == o.toned
        }),
{
    let n = rend.sample_count;
    reveal(Renderer::water_steps);
    let steps = rend.water_steps(lists, ops, start, end, o.toned);
    if steps.len() > 0 {
        followed_one(o, FrameStep::LendDepth, n);
        let o1 = followed(o, FrameStep::LendDepth, n);
        let lend = seq![FrameStep::LendDepth];
        if lists.cameras_bound {
            let begin = seq![steps[1]];
            let f = |op: Plan3dOp| lists.water_step(op);
            let body = spread(f, ops, start, end);
            followed_push(o, lend, steps[1], n);
            let o2 = followed(o1, steps[1], n);
            followed_joins(o, lend + begin, body, n);
            steady_steps(f, ops, start, end, o2, n);
            followed_push(o, lend + begin + body, FrameStep::End, n);
            assert(steps =~= lend + begin + body + seq![FrameStep::End]);
        } else {
            assert(steps =~= lend);
        }
    }
}

proof fn flats_are_in_place(
    rend: &Renderer,
    lists: &FrameLists,
    ops: Seq<Plan3dOp>,
    start: int,
    end: int,
    o: Standing,
)
    requires
        o.fine,
        o.last is Colour || o.last is Water,
        o.depth == rend.depth_target(o.toned),
    ensures
        ({
            let after = followed_all(
                o,
                rend.flat_steps(lists, ops, start, end, o.toned),
                rend.sample_count,
            );
            &&& after.fine
            &&& after.last is Colour || after.last is Water || after.last is Flat
            &&& after.colours == o.colours
            &&& after.toned == o.toned
        }),
{
    let n = rend.sample_count;
    reveal(Renderer::flat_steps);
    let toned = o.toned;
    let steps = rend.flat_steps(lists, ops, start, end, toned);
    if steps.len() > 0 {
        let begin = seq![steps[0]];
        let f = |op: Plan3dOp| lists.flat_step(op, toned);
        let body = spread(f, ops, start, end);
        followed_one(o, steps[0], n);
        let o1 = followed(o, steps[0], n);
        followed_joins(o, begin, body, n);
        steady_steps(f, ops, start, end, o1, n);
        followed_push(o, begin + body, FrameStep::End, n);
        assert(steps =~= begin + body + seq![FrameStep::End]);
    }
}

proof fn a_stretch_is_in_place(
    rend: &Renderer,
    lists: &FrameLists,
    ops: Seq<Plan3dOp>,
    start: int,
    end: int,
    clear: bool,
    o: Standing,
)
    requires
        o.fine,
        start == 0 ==> o.last is Opening && o.colours == 0 && !o.toned,
        start != 0 ==> o.colours > 0 && (o.last is Colour || o.last is Water || o.last is Flat),
    ensures
        ({
            let after = followed_all(
                o,
                rend.segment_steps(lists, ops, start, end, clear, o.toned),
                rend.sample_count,
            );
            &&& after.fine
            &&& after.last is Colour || after.last is Water || after.last is Flat
            &&& after.colours == o.colours + 1
            &&& after.toned == o.toned
        }),
{
    let n = rend.sample_count;
    reveal(Renderer::segment_steps);
    let toned = o.toned;
    let a = rend.prepass_steps(lists, ops, start, end);
    let b = rend.color_steps(lists, ops, start, end, clear, toned);
    let c = rend.water_steps(lists, ops, start, end, toned);
    let d = rend.flat_steps(lists, ops, start, end, toned);
    followed_joins(o, a + b + c, d, n);
    followed_joins(o, a + b, c, n);
    followed_joins(o, a, b, n);
    if rend.prepassed(start) {
        prepass_is_in_place(rend, lists, ops, end, o);
    } else {
        reveal(Renderer::prepass_steps);
    }
    let o1 = followed_all(o, a, n);
    colour_is_in_place(rend, lists, ops, start, end, clear, o1);
    let o2 = followed_all(o1, b, n);
    water_is_in_place(rend, lists, ops, start, end, o2);
    let o3 = followed_all(o2, c, n);
    flats_are_in_place(rend, lists, ops, start, end, o3);
}

proof fn toning_is_in_place(rend: &Renderer, o: Standing)
    requires
        o.fine,
        !o.toned,
        o.colours > 0,
    ensures
        followed_all(o, rend.tonemap_steps(), rend.sample_count) == (Standing { toned: true, ..o }),
{
    let n = rend.sample_count;
    let steps = rend.tonemap_steps();
    let head = steps.drop_last();
    assert(steps =~= head + seq![FrameStep::Tonemap]);
    followed_push(o, head, FrameStep::Tonemap, n);
    preparing_tones_nothing(head, o, n);
}

proof fn preparing_tones_nothing(steps: Seq<FrameStep>, o: Standing, samples: u32)
    requires
        o.fine,
        !o.toned,
        o.colours > 0,
        forall|i: int|
            0 <= i < steps.len() ==> {
                let s = #[trigger] steps[i];
                s is JoinSamples || s is Bloom || s is Exposure
            },
    ensures
        followed_all(o, steps, samples) == o,
    decreases steps.len(),
{
    if steps.len() > 0 {
        let head = steps.drop_last();
        assert forall|i: int| 0 <= i < head.len() implies {
            let s = #[trigger] head[i];
            s is JoinSamples || s is Bloom || s is Exposure
        } by {
            assert(head[i] == steps[i]);
        }
        preparing_tones_nothing(head, o, samples);
        let s = steps[steps.len() - 1];
        assert(s is JoinSamples || s is Bloom || s is Exposure);
    }
}

proof fn stretches_are_in_place(
    rend: &Renderer,
    lists: &FrameLists,
    ops: Seq<Plan3dOp>,
    start: int,
    clear: bool,
    o: Standing,
)
    requires
        0 <= start <= ops.len(),
        o.fine,
        start == 0 ==> o.last is Opening && o.colours == 0 && !o.toned,
        start != 0 ==> o.colours > 0 && (o.last is Colour || o.last is Water || o.last is Flat),
    ensures
        ({
            let after = followed_all(
                o,
                rend.stretches(lists, ops, start, clear, o.toned),
                rend.sample_count,
            );
            after.fine && after.colours > 0 && !(after.last is Overlay)
        }),
    decreases ops.len() - start,
{
    let n = rend.sample_count;
    let toned = o.toned;
    segment_end_bounds(ops, start);
    let end = segment_end(ops, start);
    let steps = rend.segment_steps(lists, ops, start, end, clear, toned);
    a_stretch_is_in_place(rend, lists, ops, start, end, clear, o);
    let o1 = followed_all(o, steps, n);
    if end >= ops.len() {
        let last = if rend.hdr_enabled && !toned {
            rend.tonemap_steps()
        } else {
            Seq::empty()
        };
        followed_joins(o, steps, last, n);
        if rend.hdr_enabled && !toned {
            toning_is_in_place(rend, o1);
        }
    } else {
        let tones = ops[end] == Plan3dOp::Resolve && rend.hdr_enabled && !toned;
        let tail = if tones {
            rend.tonemap_steps()
        } else {
            Seq::empty()
        };
        followed_joins(o, steps, tail, n);
        if tones {
            toning_is_in_place(rend, o1);
        }
        let o2 = followed_all(o1, tail, n);
        assert(o2.toned == (toned || tones));
        stretches_are_in_place(rend, lists, ops, end + 1, false, o2);
        followed_joins(
            o,
            steps + tail,
            rend.stretches(lists, ops, end + 1, false, toned || tones),
            n,
        );
    }
}

/// Before any step.
pub open spec fn outset() -> Standing {
    Standing {
        last: Last::Opening,
        depth: DepthTarget::Scene,
        colours: 0,
        toned: false,
        occluded: false,
        lent: false,
        known: false,
        fine: true,
    }
}

proof fn opening_is_in_place(rend: &Renderer, lists: &FrameLists)
    ensures
        followed_all(outset(), rend.opening_steps(lists), rend.sample_count) == outset(),
{
    let steps = rend.opening_steps(lists);
    assert forall|i: int| 0 <= i < steps.len() implies followed(
        outset(),
        #[trigger] steps[i],
        rend.sample_count,
    ) == outset() by {}
    standing_still(outset(), steps, rend.sample_count);
}

proof fn standing_still(o: Standing, steps: Seq<FrameStep>, samples: u32)
    requires
        forall|i: int| 0 <= i < steps.len() ==> followed(o, #[trigger] steps[i], samples) == o,
    ensures
        followed_all(o, steps, samples) == o,
    decreases steps.len(),
{
    if steps.len() > 0 {
        let head = steps.drop_last();
        assert forall|i: int| 0 <= i < head.len() implies followed(
            o,
            #[trigger] head[i],
            samples,
        ) == o by {
            assert(head[i] == steps[i]);
        }
        standing_still(o, head, samples);
        assert(followed(o, steps[steps.len() - 1], samples) == o);
    }
}

/// The passes of every frame come in their order, each with the depth that it is for, and into the
/// scene until it is toned, into the screen after. The sky comes first. Depth drawn ahead starts
/// from none, and the colour that follows it goes on with it; any other colour starts from none, so
/// nothing that was drawn before depth was cleared hides anything. Water reads the depth of the
/// colour under it, what is flat goes on with it, and the overlay has none. Each draw stands in a
/// pass of its kind.
pub proof fn passes_come_in_order(rend: &Renderer, lists: &FrameLists, ops: Seq<Plan3dOp>)
    ensures
        followed_all(outset(), rend.frame_steps(lists, ops), rend.sample_count).fine,
{
    let n = rend.sample_count;
    let a = rend.opening_steps(lists);
    let b = rend.stretches(lists, ops, 0, !rend.draws_sky(lists), false);
    let c = rend.overlay_steps(lists);
    followed_joins(outset(), a + b, c, n);
    followed_joins(outset(), a, b, n);
    opening_is_in_place(rend, lists);
    stretches_are_in_place(rend, lists, ops, 0, !rend.draws_sky(lists), outset());
    let o = followed_all(outset(), b, n);
    if c.len() > 0 {
        let (x, y, z) = (c[0], c[1], c[2]);
        assert(c =~= seq![x] + seq![y] + seq![z]);
        followed_one(o, x, n);
        followed_push(o, seq![x], y, n);
        followed_push(o, seq![x] + seq![y], z, n);
    }
}

/// A step that begins what is flat, or else one that is taken for water.
pub open spec fn is_for(s: FrameStep, flat: bool) -> bool {
    if flat {
        s matches FrameStep::Begin(d) && d.kind is Flat
    } else {
        s is LendDepth || s is Sea || (s matches FrameStep::Begin(d) && d.kind is Water)
    }
}

/// The plan asks for something flat, or else for water.
pub open spec fn asks_for(op: Plan3dOp, flat: bool) -> bool {
    if flat {
        op is Draw2D
    } else {
        op is Water
    }
}

spec fn free_of(steps: Seq<FrameStep>, flat: bool) -> bool {
    forall|i: int| 0 <= i < steps.len() ==> !is_for(#[trigger] steps[i], flat)
}

proof fn the_world_is_free_of(
    lists: &FrameLists,
    ops: Seq<Plan3dOp>,
    from: int,
    upto: int,
    prepass: bool,
    flat: bool,
)
    ensures
        free_of(spread(|op: Plan3dOp| lists.world_step(op, prepass), ops, from, upto), flat),
    decreases upto - from,
{
    if upto > from {
        the_world_is_free_of(lists, ops, from, upto - 1, prepass, flat);
    }
}

proof fn the_sea_is_free_of(lists: &FrameLists, ops: Seq<Plan3dOp>, from: int, upto: int)
    ensures
        free_of(spread(|op: Plan3dOp| lists.water_step(op), ops, from, upto), true),
    decreases upto - from,
{
    if upto > from {
        the_sea_is_free_of(lists, ops, from, upto - 1);
    }
}

proof fn flats_are_free_of(
    lists: &FrameLists,
    ops: Seq<Plan3dOp>,
    from: int,
    upto: int,
    toned: bool,
    flat: bool,
)
    ensures
        free_of(spread(|op: Plan3dOp| lists.flat_step(op, toned), ops, from, upto), flat),
    decreases upto - from,
{
    if upto > from {
        flats_are_free_of(lists, ops, from, upto - 1, toned, flat);
    }
}

proof fn a_stretch_is_free_of(
    rend: &Renderer,
    lists: &FrameLists,
    ops: Seq<Plan3dOp>,
    start: int,
    end: int,
    clear: bool,
    toned: bool,
    flat: bool,
)
    requires
        0 <= start,
        end <= ops.len(),
        forall|k: int| 0 <= k < ops.len() ==> !asks_for(#[trigger] ops[k], flat),
    ensures
        free_of(rend.segment_steps(lists, ops, start, end, clear, toned), flat),
{
    reveal(Renderer::segment_steps);
    reveal(Renderer::prepass_steps);
    reveal(Renderer::color_steps);
    reveal(Renderer::water_steps);
    reveal(Renderer::flat_steps);
    the_world_is_free_of(lists, ops, start, end, true, flat);
    the_world_is_free_of(lists, ops, start, end, false, flat);
    the_sea_is_free_of(lists, ops, start, end);
    flats_are_free_of(lists, ops, start, end, toned, flat);
    let a = rend.prepass_steps(lists, ops, start, end);
    let b = rend.color_steps(lists, ops, start, end, clear, toned);
    let c = rend.water_steps(lists, ops, start, end, toned);
    let d = rend.flat_steps(lists, ops, start, end, toned);
    assert(free_of(a, flat));
    assert(free_of(b, flat));
    assert(free_of(c, flat));
    assert(free_of(d, flat));
}

proof fn stretches_are_free_of(
    rend: &Renderer,
    lists: &FrameLists,
    ops: Seq<Plan3dOp>,
    start: int,
    clear: bool,
    toned: bool,
    flat: bool,
)
    requires
        0 <= start <= ops.len(),
        forall|k: int| 0 <= k < ops.len() ==> !asks_for(#[trigger] ops[k], flat),
    ensures
        free_of(rend.stretches(lists, ops, start, clear, toned), flat),
    decreases ops.len() - start,
{
    segment_end_bounds(ops, start);
    let end = segment_end(ops, start);
    a_stretch_is_free_of(rend, lists, ops, start, end, clear, toned, flat);
    assert(free_of(rend.tonemap_steps(), flat));
    if end < ops.len() {
        let tones = ops[end] == Plan3dOp::Resolve && rend.hdr_enabled && !toned;
        stretches_are_free_of(rend, lists, ops, end + 1, false, toned || tones, flat);
    }
}

/// Without anything flat in its plan, a frame has no pass for it; and without water it has none for
/// water either, nor is depth lent.
pub proof fn nothing_is_drawn_unasked(
    rend: &Renderer,
    lists: &FrameLists,
    ops: Seq<Plan3dOp>,
    flat: bool,
    i: int,
)
    requires
        forall|k: int| 0 <= k < ops.len() ==> !asks_for(#[trigger] ops[k], flat),
        0 <= i < rend.frame_steps(lists, ops).len(),
    ensures
        !is_for(rend.frame_steps(lists, ops)[i], flat),
{
    let a = rend.opening_steps(lists);
    let b = rend.stretches(lists, ops, 0, !rend.draws_sky(lists), false);
    let c = rend.overlay_steps(lists);
    stretches_are_free_of(rend, lists, ops, 0, !rend.draws_sky(lists), false, flat);
    assert(free_of(a, flat));
    assert(free_of(c, flat));
}

} // verus!
