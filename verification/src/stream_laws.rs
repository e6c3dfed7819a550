use crate::bits::{float_eq, float_lt};
use crate::frame::{
    ends_segment, if_so, main_camera, segment_end, spread, FrameLists, FrameStep, Renderer,
};
use crate::frame_laws::{
    collected, collected_joins, collected_nothing, collected_one, collected_spread, color_collects,
    flat_collects, prepass_collects, segment_collects, segment_end_bounds, spread_joins,
    spread_makes_nothing, spread_of_nothing, toned_at, toning_follows_a_stretch, water_collects,
};
use crate::gfx3d::plan::Plan3dOp;
use vstd::prelude::*;

verus! {

// What a frame makes of its plan, said of the plan's steps and of the lists that they refer to.

/// What matters of a frame's steps.
pub ghost enum Event {
    /// Colour is begun, with depth from nothing or from what was drawn ahead.
    Cut,
    /// The scene is toned.
    Tone,
    /// Something is drawn.
    Drawn(FrameStep),
}

/// The events of a step; of what is drawn, those that `keep` keeps.
pub open spec fn events(keep: spec_fn(FrameStep) -> bool, s: FrameStep) -> Seq<Event> {
    match s {
        FrameStep::Begin(d) => if d.kind is Color {
            seq![Event::Cut]
        } else {
            Seq::empty()
        },
        FrameStep::Tonemap => seq![Event::Tone],
        _ => if keep(s) {
            seq![Event::Drawn(s)]
        } else {
            Seq::empty()
        },
    }
}

/// The offset of a camera in the buffer of all cameras, counted in 32 bits.
pub open spec fn camera_at(lists: &FrameLists, camera: u32) -> u32 {
    ((camera * lists.camera_stride) % 0x1_0000_0000) as u32
}

proof fn offsets_are_counted(lists: &FrameLists, camera: u32)
    requires
        lists.wf(),
    ensures
        lists.offset(camera) == camera_at(lists, camera),
{
    assert(0 <= camera * lists.camera_stride <= 0xffff_ffff * 0xffff_ffff) by (nonlinear_arith)
        requires
            0 <= camera <= 0xffff_ffff,
            0 <= lists.camera_stride <= 0xffff_ffff,
    ;
    let x = (camera * lists.camera_stride) as u64;
    assert(x as u32 == x % 0x1_0000_0000) by (bit_vector);
}

/// What a frame makes of its stretches, if each stretch makes `cut` and what `before`, or after
/// toning `after`, makes of its part.
proof fn stretches_stream<X>(
    rend: &Renderer,
    lists: &FrameLists,
    ops: Seq<Plan3dOp>,
    start: int,
    clear: bool,
    toned: bool,
    f: spec_fn(FrameStep) -> Seq<X>,
    before: spec_fn(Plan3dOp) -> Seq<X>,
    after: spec_fn(Plan3dOp) -> Seq<X>,
    cut: Seq<X>,
)
    requires
        0 <= start <= ops.len(),
        forall|a: int, b: int, c: bool|
            0 <= a <= b <= ops.len() && (forall|i: int|
                a <= i < b ==> !ends_segment(#[trigger] ops[i])) ==> collected(
                f,
                #[trigger] rend.segment_steps(lists, ops, a, b, c, false),
            ) == cut + spread(before, ops, a, b),
        forall|a: int, b: int, c: bool|
            0 <= a <= b <= ops.len() && (forall|i: int|
                a <= i < b ==> !ends_segment(#[trigger] ops[i])) ==> collected(
                f,
                #[trigger] rend.segment_steps(lists, ops, a, b, c, true),
            ) == cut + spread(after, ops, a, b),
        before(Plan3dOp::ClearDepth) == cut,
        before(Plan3dOp::Resolve) == cut,
        after(Plan3dOp::ClearDepth) == cut,
        after(Plan3dOp::Resolve) == cut,
    ensures
        collected(f, rend.stretches(lists, ops, start, clear, toned)) == if toned {
            cut + spread(after, ops, start, ops.len() as int)
        } else {
            cut + spread(before, ops, start, toned_at(rend, ops, start)) + (if rend.hdr_enabled {
                collected(f, rend.tonemap_steps())
            } else {
                Seq::empty()
            }) + spread(after, ops, toned_at(rend, ops, start), ops.len() as int)
        },
    decreases ops.len() - start,
{
    let none = Seq::<X>::empty();
    let len = ops.len() as int;
    segment_end_bounds(ops, start);
    let end = segment_end(ops, start);
    toning_follows_a_stretch(rend, ops, start, end);
    let at = toned_at(rend, ops, start);
    let steps = rend.segment_steps(lists, ops, start, end, clear, toned);
    let tone = collected(f, rend.tonemap_steps());
    assert(collected(f, Seq::<FrameStep>::empty()) == none);
    if end >= ops.len() {
        let last = if rend.hdr_enabled && !toned {
            rend.tonemap_steps()
        } else {
            Seq::empty()
        };
        collected_joins(f, steps, last);
        assert(at == len);
        assert(spread(after, ops, len, len) == none);
        let all = collected(f, steps);
        assert(all + none =~= all);
        assert(all + tone + none =~= all + tone);
        assert(all + none + none =~= all);
    } else {
        let op = ops[end];
        let tones = op == Plan3dOp::Resolve && rend.hdr_enabled && !toned;
        let tail = if tones {
            rend.tonemap_steps()
        } else {
            Seq::empty()
        };
        let rest = rend.stretches(lists, ops, end + 1, false, toned || tones);
        stretches_stream(
            rend,
            lists,
            ops,
            end + 1,
            false,
            toned || tones,
            f,
            before,
            after,
            cut,
        );
        collected_joins(f, steps + tail, rest);
        collected_joins(f, steps, tail);
        let (mine, next) = (collected(f, steps), collected(f, rest));
        assert(mine + none =~= mine);
        if toned {
            spread_joins(after, ops, start, end, len);
            spread_joins(after, ops, end, end + 1, len);
            assert(spread(after, ops, end, end + 1) =~= cut) by {
                assert(spread(after, ops, end, end) == none);
            }
            assert(mine + next =~= cut + spread(after, ops, start, len));
        } else if tones {
            assert(at == end);
            spread_joins(after, ops, end, end + 1, len);
            assert(spread(after, ops, end, end + 1) =~= cut) by {
                assert(spread(after, ops, end, end) == none);
            }
            assert(mine + tone + next =~= cut + spread(before, ops, start, at) + tone + spread(
                after,
                ops,
                at,
                len,
            ));
        } else {
            toning_follows_a_stretch(rend, ops, end + 1, end + 1);
            assert(at == toned_at(rend, ops, end + 1));
            spread_joins(before, ops, start, end, at);
            spread_joins(before, ops, end, end + 1, at);
            assert(spread(before, ops, end, end + 1) =~= cut) by {
                assert(spread(before, ops, end, end) == none);
            }
            let middle = if rend.hdr_enabled {
                tone
            } else {
                none
            };
            assert(mine + next =~= cut + spread(before, ops, start, at) + middle + spread(
                after,
                ops,
                at,
                len,
            ));
        }
    }
}

/// What a frame whose plan is `ops` makes, if the plan makes `before` up to where it is toned and
/// `after` from there on.
pub open spec fn frame_stream(
    rend: &Renderer,
    ops: Seq<Plan3dOp>,
    before: spec_fn(Plan3dOp) -> Seq<Event>,
    after: spec_fn(Plan3dOp) -> Seq<Event>,
) -> Seq<Event> {
    let at = toned_at(rend, ops, 0);
    seq![Event::Cut] + spread(before, ops, 0, at) + (if rend.hdr_enabled {
        seq![Event::Tone]
    } else {
        Seq::empty()
    }) + spread(after, ops, at, ops.len() as int)
}

/// Nothing counts of what comes before and after the stretches.
spec fn counts_no_frame<X>(f: spec_fn(FrameStep) -> Seq<X>) -> bool {
    forall|s: FrameStep|
        (s matches FrameStep::Begin(d) && !(d.kind is Color)) || s is SkinBake || s is Cull || s
            is CullShadows || s is Shadows || s is TerrainShadow || s is SkyTables || s is SkyDraw
            || s is Overlay || s is End ==> #[trigger] f(s) == Seq::<X>::empty()
}

proof fn stretches_are_the_frame<X>(
    rend: &Renderer,
    lists: &FrameLists,
    ops: Seq<Plan3dOp>,
    f: spec_fn(FrameStep) -> Seq<X>,
)
    requires
        counts_no_frame(f),
    ensures
        collected(f, rend.frame_steps(lists, ops)) == collected(
            f,
            rend.stretches(lists, ops, 0, !rend.draws_sky(lists), false),
        ),
{
    let a = rend.opening_steps(lists);
    let b = rend.stretches(lists, ops, 0, !rend.draws_sky(lists), false);
    let c = rend.overlay_steps(lists);
    collected_joins(f, a + b, c);
    collected_joins(f, a, b);
    collected_nothing(f, a);
    collected_nothing(f, c);
    let all = collected(f, b);
    assert(Seq::<X>::empty() + all + Seq::<X>::empty() =~= all);
}

proof fn toning_is_an_event(rend: &Renderer, keep: spec_fn(FrameStep) -> bool)
    requires
        !keep(FrameStep::JoinSamples),
        !keep(FrameStep::Bloom),
        !keep(FrameStep::Exposure),
    ensures
        collected(|s: FrameStep| events(keep, s), rend.tonemap_steps()) == seq![Event::Tone],
{
    let f = |s: FrameStep| events(keep, s);
    let steps = rend.tonemap_steps();
    let head = steps.drop_last();
    assert(steps =~= head + seq![FrameStep::Tonemap]);
    collected_joins(f, head, seq![FrameStep::Tonemap]);
    collected_nothing(f, head);
    collected_one(f, FrameStep::Tonemap);
    assert(Seq::<Event>::empty() + seq![Event::Tone] =~= seq![Event::Tone]);
}

/// A mesh or a piece of ground, drawn in colour.
pub open spec fn is_world(s: FrameStep) -> bool {
    (s matches FrameStep::Mesh { prepass, .. } && !prepass) || (s matches FrameStep::Ground {
        prepass,
        ..
    } && !prepass)
}

/// What is drawn in colour for a step of the plan: an instanced draw of a mesh that there is, or a
/// batch of ground that there is, seen by its camera, if cameras are bound.
pub open spec fn world_events(lists: &FrameLists, op: Plan3dOp) -> Seq<Event> {
    match op {
        Plan3dOp::Draw3D { draw, base, count } => if draw < lists.draws3d@.len() {
            seq![Event::Drawn(FrameStep::Mesh { draw, base, count, prepass: false })]
        } else {
            Seq::empty()
        },
        Plan3dOp::Terrain(arg) => if arg < lists.terrain_batches@.len() && lists.cameras_bound {
            let b = lists.terrain_batches@[arg as int];
            seq![
                Event::Drawn(
                    FrameStep::Ground {
                        camera_offset: camera_at(lists, b.camera),
                        first_node: b.first_node,
                        node_count: b.node_count,
                        prepass: false,
                    },
                ),
            ]
        } else {
            Seq::empty()
        },
        Plan3dOp::ClearDepth | Plan3dOp::Resolve => seq![Event::Cut],
        _ => Seq::empty(),
    }
}

proof fn a_step_in_colour(lists: &FrameLists, op: Plan3dOp)
    requires
        lists.wf(),
        !ends_segment(op),
    ensures
        collected(
            |s: FrameStep| events(|t: FrameStep| is_world(t), s),
            lists.world_step(op, false),
        ) == world_events(lists, op),
{
    let keep = |t: FrameStep| is_world(t);
    let f = |s: FrameStep| events(keep, s);
    let steps = lists.world_step(op, false);
    match op {
        Plan3dOp::Draw3D { draw, base, count } => {
            if steps.len() > 0 {
                collected_one(f, steps[0]);
                assert(steps =~= seq![steps[0]]);
            }
        },
        Plan3dOp::Terrain(arg) => {
            if steps.len() == 1 {
                collected_one(f, steps[0]);
                assert(steps =~= seq![steps[0]]);
            } else {
                offsets_are_counted(lists, lists.terrain_batches@[arg as int].camera);
                collected_one(f, steps[0]);
                collected_one(f, steps[1]);
                assert(steps =~= seq![steps[0]] + seq![steps[1]]);
                collected_joins(f, seq![steps[0]], seq![steps[1]]);
                assert(Seq::<Event>::empty() + f(steps[1]) =~= world_events(lists, op));
            }
        },
        _ => {},
    }
}

proof fn segment_world_events(
    rend: &Renderer,
    lists: &FrameLists,
    ops: Seq<Plan3dOp>,
    a: int,
    b: int,
    clear: bool,
    toned: bool,
)
    requires
        lists.wf(),
        forall|i: int| a <= i < b ==> !ends_segment(#[trigger] ops[i]),
    ensures
        collected(
            |s: FrameStep| events(|t: FrameStep| is_world(t), s),
            rend.segment_steps(lists, ops, a, b, clear, toned),
        ) == seq![Event::Cut] + spread(|op: Plan3dOp| world_events(lists, op), ops, a, b),
{
    let keep = |t: FrameStep| is_world(t);
    let f = |s: FrameStep| events(keep, s);
    let h = |op: Plan3dOp| world_events(lists, op);
    let g = |op: Plan3dOp| lists.world_step(op, false);
    segment_collects(rend, lists, ops, a, b, clear, toned, f);
    prepass_collects(rend, lists, ops, a, b, f);
    color_collects(rend, lists, ops, a, b, clear, toned, f);
    water_collects(rend, lists, ops, a, b, toned, f);
    flat_collects(rend, lists, ops, a, b, toned, f);
    spread_makes_nothing(f, |op: Plan3dOp| lists.world_step(op, true), ops, a, b);
    spread_makes_nothing(f, |op: Plan3dOp| lists.water_step(op), ops, a, b);
    spread_makes_nothing(f, |op: Plan3dOp| lists.flat_step(op, toned), ops, a, b);
    assert forall|i: int| a <= i < b implies collected(f, g(#[trigger] ops[i])) == h(ops[i]) by {
        assert(!ends_segment(ops[i]));
        a_step_in_colour(lists, ops[i]);
    }
    collected_spread(f, g, h, ops, a, b);
    let (none, cut, all) = (Seq::<Event>::empty(), seq![Event::Cut], spread(h, ops, a, b));
    assert(none + (cut + all) + none + none =~= cut + all);
}

/// A frame draws, in colour, the meshes and the ground of its plan, each once and in order. A
/// plan's clearing of depth, and its completion of the scene, begin colour anew between what was
/// asked for before and after; and the scene is toned where it is first completed, or at the end.
pub proof fn a_frame_draws_what_it_plans(rend: &Renderer, lists: &FrameLists, ops: Seq<Plan3dOp>)
    requires
        lists.wf(),
    ensures
        collected(
            |s: FrameStep| events(|t: FrameStep| is_world(t), s),
            rend.frame_steps(lists, ops),
        ) == frame_stream(
            rend,
            ops,
            |op: Plan3dOp| world_events(lists, op),
            |op: Plan3dOp| world_events(lists, op),
        ),
{
    let keep = |t: FrameStep| is_world(t);
    let f = |s: FrameStep| events(keep, s);
    let h = |op: Plan3dOp| world_events(lists, op);
    let cut = seq![Event::Cut];
    assert forall|a: int, b: int, c: bool|
        0 <= a <= b <= ops.len() && (forall|i: int|
            a <= i < b ==> !ends_segment(#[trigger] ops[i])) implies collected(
        f,
        #[trigger] rend.segment_steps(lists, ops, a, b, c, false),
    ) == cut + spread(h, ops, a, b) by {
        segment_world_events(rend, lists, ops, a, b, c, false);
    }
    assert forall|a: int, b: int, c: bool|
        0 <= a <= b <= ops.len() && (forall|i: int|
            a <= i < b ==> !ends_segment(#[trigger] ops[i])) implies collected(
        f,
        #[trigger] rend.segment_steps(lists, ops, a, b, c, true),
    ) == cut + spread(h, ops, a, b) by {
        segment_world_events(rend, lists, ops, a, b, c, true);
    }
    stretches_are_the_frame(rend, lists, ops, f);
    toning_is_an_event(rend, keep);
    stretches_stream(rend, lists, ops, 0, !rend.draws_sky(lists), false, f, h, h, cut);
}

/// The water batch for a step of the plan that there is, seen by its camera, if cameras are bound
/// and the scene is not toned yet.
pub open spec fn sea_events(lists: &FrameLists, op: Plan3dOp, toned: bool) -> Seq<Event> {
    match op {
        Plan3dOp::Water(arg) => if arg < lists.water_batches@.len() && lists.cameras_bound
            && !toned {
            let b = lists.water_batches@[arg as int];
            seq![
                Event::Drawn(
                    FrameStep::Sea {
                        camera_offset: camera_at(lists, b.camera),
                        first_node: b.first_node,
                        node_count: b.node_count,
                    },
                ),
            ]
        } else {
            Seq::empty()
        },
        Plan3dOp::ClearDepth | Plan3dOp::Resolve => seq![Event::Cut],
        _ => Seq::empty(),
    }
}

proof fn segment_sea_events(
    rend: &Renderer,
    lists: &FrameLists,
    ops: Seq<Plan3dOp>,
    a: int,
    b: int,
    clear: bool,
    toned: bool,
)
    requires
        lists.wf(),
        forall|i: int| a <= i < b ==> !ends_segment(#[trigger] ops[i]),
    ensures
        collected(
            |s: FrameStep| events(|t: FrameStep| t is Sea, s),
            rend.segment_steps(lists, ops, a, b, clear, toned),
        ) == seq![Event::Cut] + spread(|op: Plan3dOp| sea_events(lists, op, toned), ops, a, b),
{
    let keep = |t: FrameStep| t is Sea;
    let f = |s: FrameStep| events(keep, s);
    let h = |op: Plan3dOp| sea_events(lists, op, toned);
    let g = |op: Plan3dOp| lists.water_step(op);
    let none = Seq::<Event>::empty();
    segment_collects(rend, lists, ops, a, b, clear, toned, f);
    prepass_collects(rend, lists, ops, a, b, f);
    color_collects(rend, lists, ops, a, b, clear, toned, f);
    water_collects(rend, lists, ops, a, b, toned, f);
    flat_collects(rend, lists, ops, a, b, toned, f);
    spread_makes_nothing(f, |op: Plan3dOp| lists.world_step(op, true), ops, a, b);
    spread_makes_nothing(f, |op: Plan3dOp| lists.world_step(op, false), ops, a, b);
    spread_makes_nothing(f, |op: Plan3dOp| lists.flat_step(op, toned), ops, a, b);
    if lists.cameras_bound && !toned {
        assert forall|i: int| a <= i < b implies collected(f, g(#[trigger] ops[i])) == h(
            ops[i],
        ) by {
            assert(!ends_segment(ops[i]));
            let steps = g(ops[i]);
            if let Plan3dOp::Water(arg) = ops[i] {
                if steps.len() > 0 {
                    offsets_are_counted(lists, lists.water_batches@[arg as int].camera);
                    collected_one(f, steps[0]);
                    assert(steps =~= seq![steps[0]]);
                }
            }
        }
        collected_spread(f, g, h, ops, a, b);
    } else {
        assert forall|i: int| a <= i < b implies h(#[trigger] ops[i]) == none by {
            assert(!ends_segment(ops[i]));
        }
        spread_of_nothing(h, ops, a, b);
    }
    let (cut, all) = (seq![Event::Cut], spread(h, ops, a, b));
    assert(none + (cut + none) + all + none =~= cut + all);
}

/// A frame draws the water of its plan until the scene is toned, each batch once, in order, and in
/// the stretch that it was asked for in.
pub proof fn a_frame_draws_the_sea_it_plans(rend: &Renderer, lists: &FrameLists, ops: Seq<Plan3dOp>)
    requires
        lists.wf(),
    ensures
        collected(
            |s: FrameStep| events(|t: FrameStep| t is Sea, s),
            rend.frame_steps(lists, ops),
        ) == frame_stream(
            rend,
            ops,
            |op: Plan3dOp| sea_events(lists, op, false),
            |op: Plan3dOp| sea_events(lists, op, true),
        ),
{
    let keep = |t: FrameStep| t is Sea;
    let f = |s: FrameStep| events(keep, s);
    let before = |op: Plan3dOp| sea_events(lists, op, false);
    let after = |op: Plan3dOp| sea_events(lists, op, true);
    let cut = seq![Event::Cut];
    assert forall|a: int, b: int, c: bool|
        0 <= a <= b <= ops.len() && (forall|i: int|
            a <= i < b ==> !ends_segment(#[trigger] ops[i])) implies collected(
        f,
        #[trigger] rend.segment_steps(lists, ops, a, b, c, false),
    ) == cut + spread(before, ops, a, b) by {
        segment_sea_events(rend, lists, ops, a, b, c, false);
    }
    assert forall|a: int, b: int, c: bool|
        0 <= a <= b <= ops.len() && (forall|i: int|
            a <= i < b ==> !ends_segment(#[trigger] ops[i])) implies collected(
        f,
        #[trigger] rend.segment_steps(lists, ops, a, b, c, true),
    ) == cut + spread(after, ops, a, b) by {
        segment_sea_events(rend, lists, ops, a, b, c, true);
    }
    stretches_are_the_frame(rend, lists, ops, f);
    toning_is_an_event(rend, keep);
    stretches_stream(rend, lists, ops, 0, !rend.draws_sky(lists), false, f, before, after, cut);
}

/// The flat batch for a step of the plan that there is; on the screen once the scene is toned.
pub open spec fn flat_events(lists: &FrameLists, op: Plan3dOp, toned: bool) -> Seq<Event> {
    match op {
        Plan3dOp::Draw2D(arg) => if arg < lists.batches {
            seq![Event::Drawn(FrameStep::Flat { batch: arg, display: toned })]
        } else {
            Seq::empty()
        },
        Plan3dOp::ClearDepth | Plan3dOp::Resolve => seq![Event::Cut],
        _ => Seq::empty(),
    }
}

proof fn segment_flat_events(
    rend: &Renderer,
    lists: &FrameLists,
    ops: Seq<Plan3dOp>,
    a: int,
    b: int,
    clear: bool,
    toned: bool,
)
    requires
        forall|i: int| a <= i < b ==> !ends_segment(#[trigger] ops[i]),
    ensures
        collected(
            |s: FrameStep| events(|t: FrameStep| t is Flat, s),
            rend.segment_steps(lists, ops, a, b, clear, toned),
        ) == seq![Event::Cut] + spread(|op: Plan3dOp| flat_events(lists, op, toned), ops, a, b),
{
    let keep = |t: FrameStep| t is Flat;
    let f = |s: FrameStep| events(keep, s);
    let h = |op: Plan3dOp| flat_events(lists, op, toned);
    let g = |op: Plan3dOp| lists.flat_step(op, toned);
    segment_collects(rend, lists, ops, a, b, clear, toned, f);
    prepass_collects(rend, lists, ops, a, b, f);
    color_collects(rend, lists, ops, a, b, clear, toned, f);
    water_collects(rend, lists, ops, a, b, toned, f);
    flat_collects(rend, lists, ops, a, b, toned, f);
    spread_makes_nothing(f, |op: Plan3dOp| lists.world_step(op, true), ops, a, b);
    spread_makes_nothing(f, |op: Plan3dOp| lists.world_step(op, false), ops, a, b);
    spread_makes_nothing(f, |op: Plan3dOp| lists.water_step(op), ops, a, b);
    assert forall|i: int| a <= i < b implies collected(f, g(#[trigger] ops[i])) == h(ops[i]) by {
        assert(!ends_segment(ops[i]));
        let steps = g(ops[i]);
        if steps.len() > 0 {
            collected_one(f, steps[0]);
            assert(steps =~= seq![steps[0]]);
        }
    }
    collected_spread(f, g, h, ops, a, b);
    let (none, cut, all) = (Seq::<Event>::empty(), seq![Event::Cut], spread(h, ops, a, b));
    assert(none + (cut + none) + none + all =~= cut + all);
}

/// A frame draws the flat batches of its plan, each once, in order, and in the stretch that it was
/// asked for in: over the scene before it is toned, over the screen after.
pub proof fn a_frame_draws_the_flats_it_plans(
    rend: &Renderer,
    lists: &FrameLists,
    ops: Seq<Plan3dOp>,
)
    ensures
        collected(
            |s: FrameStep| events(|t: FrameStep| t is Flat, s),
            rend.frame_steps(lists, ops),
        ) == frame_stream(
            rend,
            ops,
            |op: Plan3dOp| flat_events(lists, op, false),
            |op: Plan3dOp| flat_events(lists, op, true),
        ),
{
    let keep = |t: FrameStep| t is Flat;
    let f = |s: FrameStep| events(keep, s);
    let before = |op: Plan3dOp| flat_events(lists, op, false);
    let after = |op: Plan3dOp| flat_events(lists, op, true);
    let cut = seq![Event::Cut];
    assert forall|a: int, b: int, c: bool|
        0 <= a <= b <= ops.len() && (forall|i: int|
            a <= i < b ==> !ends_segment(#[trigger] ops[i])) implies collected(
        f,
        #[trigger] rend.segment_steps(lists, ops, a, b, c, false),
    ) == cut + spread(before, ops, a, b) by {
        segment_flat_events(rend, lists, ops, a, b, c, false);
    }
    assert forall|a: int, b: int, c: bool|
        0 <= a <= b <= ops.len() && (forall|i: int|
            a <= i < b ==> !ends_segment(#[trigger] ops[i])) implies collected(
        f,
        #[trigger] rend.segment_steps(lists, ops, a, b, c, true),
    ) == cut + spread(after, ops, a, b) by {
        segment_flat_events(rend, lists, ops, a, b, c, true);
    }
    stretches_are_the_frame(rend, lists, ops, f);
    toning_is_an_event(rend, keep);
    stretches_stream(rend, lists, ops, 0, !rend.draws_sky(lists), false, f, before, after, cut);
}

/// A step that toning is made of.
pub open spec fn is_toning(s: FrameStep) -> bool {
    s is JoinSamples || s is Bloom || s is Exposure || s is Tonemap
}

/// A scene with a target of its own is toned once: its samples are joined first if it has several,
/// bright light blooms if that is asked for, and the exposure is settled just before. Any other
/// scene is not.
pub proof fn a_frame_is_toned_once(rend: &Renderer, lists: &FrameLists, ops: Seq<Plan3dOp>)
    ensures
        collected(|s: FrameStep| if_so(is_toning(s), s), rend.frame_steps(lists, ops)) == if
            rend.hdr_enabled {
            (if rend.hdr is Some && rend.sample_count > 1 {
                seq![FrameStep::JoinSamples]
            } else {
                Seq::empty()
            }) + (if 0 < rend.bloom_intensity <= 0x7f80_0000 {
                seq![FrameStep::Bloom]
            } else {
                Seq::empty()
            }) + seq![FrameStep::Exposure, FrameStep::Tonemap]
        } else {
            Seq::empty()
        },
{
    let f = |s: FrameStep| if_so(is_toning(s), s);
    let h = |op: Plan3dOp| Seq::<FrameStep>::empty();
    let none = Seq::<FrameStep>::empty();
    assert forall|a: int, b: int, c: bool, t: bool| collected(
        f,
        #[trigger] rend.segment_steps(lists, ops, a, b, c, t),
    ) == none + spread(h, ops, a, b) by {
        segment_collects(rend, lists, ops, a, b, c, t, f);
        prepass_collects(rend, lists, ops, a, b, f);
        color_collects(rend, lists, ops, a, b, c, t, f);
        water_collects(rend, lists, ops, a, b, t, f);
        flat_collects(rend, lists, ops, a, b, t, f);
        spread_makes_nothing(f, |op: Plan3dOp| lists.world_step(op, true), ops, a, b);
        spread_makes_nothing(f, |op: Plan3dOp| lists.world_step(op, false), ops, a, b);
        spread_makes_nothing(f, |op: Plan3dOp| lists.water_step(op), ops, a, b);
        spread_makes_nothing(f, |op: Plan3dOp| lists.flat_step(op, t), ops, a, b);
        spread_of_nothing(h, ops, a, b);
        assert(none + (none + none) + none + none =~= none + none);
    }
    stretches_are_the_frame(rend, lists, ops, f);
    stretches_stream(rend, lists, ops, 0, !rend.draws_sky(lists), false, f, h, h, none);
    let at = toned_at(rend, ops, 0);
    spread_of_nothing(h, ops, 0, at);
    spread_of_nothing(h, ops, at, ops.len() as int);
    let steps = rend.tonemap_steps();
    keeping_all_keeps_all(steps);
    assert(none + none + steps + none =~= steps);
    assert(none + none + none + none =~= none);
    assert(float_lt(0, rend.bloom_intensity) == (0 < rend.bloom_intensity <= 0x7f80_0000));
}

proof fn keeping_all_keeps_all(steps: Seq<FrameStep>)
    requires
        forall|i: int| 0 <= i < steps.len() ==> is_toning(#[trigger] steps[i]),
    ensures
        collected(|s: FrameStep| if_so(is_toning(s), s), steps) == steps,
    decreases steps.len(),
{
    if steps.len() > 0 {
        let head = steps.drop_last();
        assert forall|i: int| 0 <= i < head.len() implies is_toning(#[trigger] head[i]) by {
            assert(head[i] == steps[i]);
        }
        keeping_all_keeps_all(head);
        assert(is_toning(steps[steps.len() - 1]));
        assert(steps =~= head + seq![steps.last()]);
    }
}

/// A mesh or a piece of ground, drawn ahead of colour.
pub open spec fn is_ahead(s: FrameStep) -> bool {
    (s matches FrameStep::Mesh { prepass, .. } && prepass) || (s matches FrameStep::Ground {
        prepass,
        ..
    } && prepass)
}

/// What is drawn ahead for a step of the plan: the same as in colour.
pub open spec fn ahead_steps(lists: &FrameLists, op: Plan3dOp) -> Seq<FrameStep> {
    match op {
        Plan3dOp::Draw3D { draw, base, count } => if draw < lists.draws3d@.len() {
            seq![FrameStep::Mesh { draw, base, count, prepass: true }]
        } else {
            Seq::empty()
        },
        Plan3dOp::Terrain(arg) => if arg < lists.terrain_batches@.len() && lists.cameras_bound {
            let b = lists.terrain_batches@[arg as int];
            seq![
                FrameStep::Ground {
                    camera_offset: camera_at(lists, b.camera),
                    first_node: b.first_node,
                    node_count: b.node_count,
                    prepass: true,
                },
            ]
        } else {
            Seq::empty()
        },
        _ => Seq::empty(),
    }
}

/// Where the first stretch of a plan ends: at the first clearing of depth or completion of the
/// scene.
pub open spec fn first_cut(ops: Seq<Plan3dOp>, start: int) -> int
    decreases ops.len() - start,
{
    if start >= ops.len() || ops[start] is ClearDepth || ops[start] is Resolve {
        start
    } else {
        first_cut(ops, start + 1)
    }
}

proof fn first_cut_ends_a_segment(ops: Seq<Plan3dOp>, start: int)
    requires
        0 <= start <= ops.len(),
    ensures
        first_cut(ops, start) == segment_end(ops, start),
    decreases ops.len() - start,
{
    if start < ops.len() && !ends_segment(ops[start]) {
        first_cut_ends_a_segment(ops, start + 1);
    }
}

proof fn a_step_ahead(lists: &FrameLists, op: Plan3dOp)
    requires
        lists.wf(),
    ensures
        collected(|s: FrameStep| if_so(is_ahead(s), s), lists.world_step(op, true)) == ahead_steps(
            lists,
            op,
        ),
{
    let f = |s: FrameStep| if_so(is_ahead(s), s);
    let steps = lists.world_step(op, true);
    match op {
        Plan3dOp::Draw3D { draw, base, count } => {
            if steps.len() > 0 {
                collected_one(f, steps[0]);
                assert(steps =~= seq![steps[0]]);
            }
        },
        Plan3dOp::Terrain(arg) => {
            if steps.len() == 1 {
                collected_one(f, steps[0]);
                assert(steps =~= seq![steps[0]]);
            } else {
                offsets_are_counted(lists, lists.terrain_batches@[arg as int].camera);
                collected_one(f, steps[0]);
                collected_one(f, steps[1]);
                assert(steps =~= seq![steps[0]] + seq![steps[1]]);
                collected_joins(f, seq![steps[0]], seq![steps[1]]);
                assert(Seq::<FrameStep>::empty() + seq![steps[1]] =~= ahead_steps(lists, op));
            }
        },
        _ => {},
    }
}

proof fn segment_ahead_steps(
    rend: &Renderer,
    lists: &FrameLists,
    ops: Seq<Plan3dOp>,
    a: int,
    b: int,
    clear: bool,
    toned: bool,
)
    requires
        lists.wf(),
    ensures
        collected(
            |s: FrameStep| if_so(is_ahead(s), s),
            rend.segment_steps(lists, ops, a, b, clear, toned),
        ) == if a == 0 && rend.prepass_enabled {
            spread(|op: Plan3dOp| ahead_steps(lists, op), ops, a, b)
        } else {
            Seq::empty()
        },
{
    let f = |s: FrameStep| if_so(is_ahead(s), s);
    let h = |op: Plan3dOp| ahead_steps(lists, op);
    let g = |op: Plan3dOp| lists.world_step(op, true);
    let none = Seq::<FrameStep>::empty();
    segment_collects(rend, lists, ops, a, b, clear, toned, f);
    prepass_collects(rend, lists, ops, a, b, f);
    color_collects(rend, lists, ops, a, b, clear, toned, f);
    water_collects(rend, lists, ops, a, b, toned, f);
    flat_collects(rend, lists, ops, a, b, toned, f);
    spread_makes_nothing(f, |op: Plan3dOp| lists.world_step(op, false), ops, a, b);
    spread_makes_nothing(f, |op: Plan3dOp| lists.water_step(op), ops, a, b);
    spread_makes_nothing(f, |op: Plan3dOp| lists.flat_step(op, toned), ops, a, b);
    assert forall|i: int| a <= i < b implies collected(f, g(#[trigger] ops[i])) == h(ops[i]) by {
        a_step_ahead(lists, ops[i]);
    }
    collected_spread(f, g, h, ops, a, b);
    let all = spread(h, ops, a, b);
    assert(all + (none + none) + none + none =~= all);
    assert(none + (none + none) + none + none =~= none);
}

proof fn nothing_is_ahead_later(
    rend: &Renderer,
    lists: &FrameLists,
    ops: Seq<Plan3dOp>,
    start: int,
    clear: bool,
    toned: bool,
)
    requires
        lists.wf(),
        0 < start <= ops.len(),
    ensures
        collected(
            |s: FrameStep| if_so(is_ahead(s), s),
            rend.stretches(lists, ops, start, clear, toned),
        ) == Seq::<FrameStep>::empty(),
    decreases ops.len() - start,
{
    let f = |s: FrameStep| if_so(is_ahead(s), s);
    let none = Seq::<FrameStep>::empty();
    segment_end_bounds(ops, start);
    let end = segment_end(ops, start);
    let steps = rend.segment_steps(lists, ops, start, end, clear, toned);
    segment_ahead_steps(rend, lists, ops, start, end, clear, toned);
    collected_nothing(f, rend.tonemap_steps());
    assert(collected(f, none) == none);
    if end >= ops.len() {
        let last = if rend.hdr_enabled && !toned {
            rend.tonemap_steps()
        } else {
            Seq::empty()
        };
        collected_joins(f, steps, last);
    } else {
        let tones = ops[end] == Plan3dOp::Resolve && rend.hdr_enabled && !toned;
        let tail = if tones {
            rend.tonemap_steps()
        } else {
            Seq::empty()
        };
        nothing_is_ahead_later(rend, lists, ops, end + 1, false, toned || tones);
        collected_joins(
            f,
            steps + tail,
            rend.stretches(lists, ops, end + 1, false, toned || tones),
        );
        collected_joins(f, steps, tail);
    }
    assert(none + none + none =~= none);
    assert(none + none =~= none);
}

/// Where depth is drawn ahead, that of the first stretch is: all its meshes and ground, in order,
/// and nothing of what follows.
pub proof fn depth_is_drawn_ahead(rend: &Renderer, lists: &FrameLists, ops: Seq<Plan3dOp>)
    requires
        lists.wf(),
    ensures
        collected(|s: FrameStep| if_so(is_ahead(s), s), rend.frame_steps(lists, ops)) == if
            rend.prepass_enabled {
            spread(|op: Plan3dOp| ahead_steps(lists, op), ops, 0, first_cut(ops, 0))
        } else {
            Seq::empty()
        },
{
    let f = |s: FrameStep| if_so(is_ahead(s), s);
    let none = Seq::<FrameStep>::empty();
    stretches_are_the_frame(rend, lists, ops, f);
    segment_end_bounds(ops, 0);
    first_cut_ends_a_segment(ops, 0);
    let end = segment_end(ops, 0);
    let clear = !rend.draws_sky(lists);
    let steps = rend.segment_steps(lists, ops, 0, end, clear, false);
    segment_ahead_steps(rend, lists, ops, 0, end, clear, false);
    collected_nothing(f, rend.tonemap_steps());
    assert(collected(f, none) == none);
    let all = collected(f, steps);
    if end >= ops.len() {
        let last = if rend.hdr_enabled {
            rend.tonemap_steps()
        } else {
            Seq::empty()
        };
        collected_joins(f, steps, last);
        assert(all + none =~= all);
    } else {
        let tones = ops[end] == Plan3dOp::Resolve && rend.hdr_enabled;
        let tail = if tones {
            rend.tonemap_steps()
        } else {
            Seq::empty()
        };
        nothing_is_ahead_later(rend, lists, ops, end + 1, false, tones);
        collected_joins(f, steps + tail, rend.stretches(lists, ops, end + 1, false, tones));
        collected_joins(f, steps, tail);
        assert(all + none + none =~= all);
    }
}

/// What the device culled by itself, or the spheres that it culled by.
pub open spec fn is_culled(s: FrameStep) -> bool {
    s is World || s is CullSpheres
}

/// The camera that the world is seen with: the first batch of ground's, or without ground the
/// first mesh's, or the first there is.
pub open spec fn world_camera(lists: &FrameLists) -> u32 {
    if lists.terrain_batches@.len() > 0 {
        lists.terrain_batches@[0].camera
    } else if lists.draws3d@.len() > 0 {
        lists.draws3d@[0].camera
    } else {
        0
    }
}

proof fn segment_culled_steps(
    rend: &Renderer,
    lists: &FrameLists,
    ops: Seq<Plan3dOp>,
    a: int,
    b: int,
    clear: bool,
    toned: bool,
)
    requires
        lists.wf(),
    ensures
        ({
            let world = FrameStep::World { camera_offset: camera_at(lists, world_camera(lists)) };
            let balls = FrameStep::CullSpheres {
                camera_offset: camera_at(lists, world_camera(lists)),
            };
            collected(
                |s: FrameStep| if_so(is_culled(s), s),
                rend.segment_steps(lists, ops, a, b, clear, toned),
            ) == if a == 0 && !rend.suppress_world_objects {
                if_so(rend.prepass_enabled, world) + seq![world] + if_so(
                    rend.cull_debug_draw,
                    balls,
                )
            } else {
                Seq::empty()
            }
        }),
{
    let f = |s: FrameStep| if_so(is_culled(s), s);
    let none = Seq::<FrameStep>::empty();
    offsets_are_counted(lists, world_camera(lists));
    let camera = lists.offset(main_camera(lists.terrain_batches@, lists.draws3d@));
    let world = FrameStep::World { camera_offset: camera };
    let balls = FrameStep::CullSpheres { camera_offset: camera };
    let (w, k) = (
        if_so(rend.draws_world(a), world),
        if_so(rend.draws_world(a) && rend.cull_debug_draw, balls),
    );
    collected_one(f, world);
    collected_one(f, balls);
    assert(collected(f, none) == none);
    assert(collected(f, w) == w && collected(f, k) == k);
    segment_collects(rend, lists, ops, a, b, clear, toned, f);
    let pre = rend.prepass_steps(lists, ops, a, b);
    let col = rend.color_steps(lists, ops, a, b, clear, toned);
    assert(collected(f, pre) == if rend.prepassed(a) {
        w
    } else {
        none
    }) by {
        reveal(Renderer::prepass_steps);
        if rend.prepassed(a) {
            let g = |op: Plan3dOp| lists.world_step(op, true);
            let begin = seq![pre[0]];
            let end = seq![FrameStep::End, FrameStep::Occlusion];
            let body = spread(g, ops, a, b);
            assert(pre =~= begin + body + w + end);
            collected_joins(f, begin + body + w, end);
            collected_joins(f, begin + body, w);
            collected_joins(f, begin, body);
            collected_nothing(f, begin);
            collected_nothing(f, end);
            spread_makes_nothing(f, g, ops, a, b);
            assert(none + none + w + none =~= w);
        }
    }
    assert(collected(f, col) == w + k) by {
        reveal(Renderer::color_steps);
        let g = |op: Plan3dOp| lists.world_step(op, false);
        let begin = seq![col[0]];
        let end = seq![FrameStep::End];
        let body = spread(g, ops, a, b);
        assert(col =~= begin + w + body + k + end);
        collected_joins(f, begin + w + body + k, end);
        collected_joins(f, begin + w + body, k);
        collected_joins(f, begin + w, body);
        collected_joins(f, begin, w);
        collected_nothing(f, begin);
        collected_nothing(f, end);
        spread_makes_nothing(f, g, ops, a, b);
        assert(none + w + none + k + none =~= w + k);
    }
    assert(collected(f, rend.water_steps(lists, ops, a, b, toned)) == none) by {
        reveal(Renderer::water_steps);
        let wat = rend.water_steps(lists, ops, a, b, toned);
        let g = |op: Plan3dOp| lists.water_step(op);
        if wat.len() > 1 {
            let (begin, body, end) = (
                seq![wat[0], wat[1]],
                spread(g, ops, a, b),
                seq![FrameStep::End],
            );
            assert(wat =~= begin + body + end);
            collected_joins(f, begin + body, end);
            collected_joins(f, begin, body);
            collected_nothing(f, begin);
            collected_nothing(f, end);
            spread_makes_nothing(f, g, ops, a, b);
            assert(none + none + none =~= none);
        } else {
            collected_nothing(f, wat);
        }
    }
    assert(collected(f, rend.flat_steps(lists, ops, a, b, toned)) == none) by {
        reveal(Renderer::flat_steps);
        let fla = rend.flat_steps(lists, ops, a, b, toned);
        let g = |op: Plan3dOp| lists.flat_step(op, toned);
        if fla.len() > 0 {
            let (begin, body, end) = (seq![fla[0]], spread(g, ops, a, b), seq![FrameStep::End]);
            assert(fla =~= begin + body + end);
            collected_joins(f, begin + body, end);
            collected_joins(f, begin, body);
            collected_nothing(f, begin);
            collected_nothing(f, end);
            spread_makes_nothing(f, g, ops, a, b);
            assert(none + none + none =~= none);
        }
    }
    assert(w + (w + k) + none + none =~= w + w + k);
    assert(none + (w + k) + none + none =~= none + w + k);
    assert(none + (none + none) + none + none =~= none);
}

proof fn nothing_culled_later(
    rend: &Renderer,
    lists: &FrameLists,
    ops: Seq<Plan3dOp>,
    start: int,
    clear: bool,
    toned: bool,
)
    requires
        lists.wf(),
        0 < start <= ops.len(),
    ensures
        collected(
            |s: FrameStep| if_so(is_culled(s), s),
            rend.stretches(lists, ops, start, clear, toned),
        ) == Seq::<FrameStep>::empty(),
    decreases ops.len() - start,
{
    let f = |s: FrameStep| if_so(is_culled(s), s);
    let none = Seq::<FrameStep>::empty();
    segment_end_bounds(ops, start);
    let end = segment_end(ops, start);
    let steps = rend.segment_steps(lists, ops, start, end, clear, toned);
    segment_culled_steps(rend, lists, ops, start, end, clear, toned);
    collected_nothing(f, rend.tonemap_steps());
    assert(collected(f, none) == none);
    if end >= ops.len() {
        let last = if rend.hdr_enabled && !toned {
            rend.tonemap_steps()
        } else {
            Seq::empty()
        };
        collected_joins(f, steps, last);
    } else {
        let tones = ops[end] == Plan3dOp::Resolve && rend.hdr_enabled && !toned;
        let tail = if tones {
            rend.tonemap_steps()
        } else {
            Seq::empty()
        };
        nothing_culled_later(rend, lists, ops, end + 1, false, toned || tones);
        collected_joins(
            f,
            steps + tail,
            rend.stretches(lists, ops, end + 1, false, toned || tones),
        );
        collected_joins(f, steps, tail);
    }
    assert(none + none + none =~= none);
    assert(none + none =~= none);
}

/// What the device culled is drawn once in colour, and once ahead where depth is drawn ahead,
/// unless it is suppressed; and with it the spheres, if they are asked for. All are seen by the
/// world's camera.
pub proof fn the_culled_world_is_drawn(rend: &Renderer, lists: &FrameLists, ops: Seq<Plan3dOp>)
    requires
        lists.wf(),
    ensures
        ({
            let at = camera_at(lists, world_camera(lists));
            let world = FrameStep::World { camera_offset: at };
            let balls = FrameStep::CullSpheres { camera_offset: at };
            collected(
                |s: FrameStep| if_so(is_culled(s), s),
                rend.frame_steps(lists, ops),
            ) == if rend.suppress_world_objects {
                Seq::empty()
            } else {
                if_so(rend.prepass_enabled, world) + seq![world] + if_so(
                    rend.cull_debug_draw,
                    balls,
                )
            }
        }),
{
    let f = |s: FrameStep| if_so(is_culled(s), s);
    let none = Seq::<FrameStep>::empty();
    stretches_are_the_frame(rend, lists, ops, f);
    segment_end_bounds(ops, 0);
    let end = segment_end(ops, 0);
    let clear = !rend.draws_sky(lists);
    let steps = rend.segment_steps(lists, ops, 0, end, clear, false);
    segment_culled_steps(rend, lists, ops, 0, end, clear, false);
    collected_nothing(f, rend.tonemap_steps());
    assert(collected(f, none) == none);
    let all = collected(f, steps);
    if end >= ops.len() {
        let last = if rend.hdr_enabled {
            rend.tonemap_steps()
        } else {
            Seq::empty()
        };
        collected_joins(f, steps, last);
        assert(all + none =~= all);
    } else {
        let tones = ops[end] == Plan3dOp::Resolve && rend.hdr_enabled;
        let tail = if tones {
            rend.tonemap_steps()
        } else {
            Seq::empty()
        };
        nothing_culled_later(rend, lists, ops, end + 1, false, tones);
        collected_joins(f, steps + tail, rend.stretches(lists, ops, end + 1, false, tones));
        collected_joins(f, steps, tail);
        assert(all + none + none =~= all);
    }
}

/// What a frame does besides its plan.
pub open spec fn is_besides(s: FrameStep) -> bool {
    s is SkinBake || s is Cull || s is CullShadows || s is Shadows || s is TerrainShadow || s
        is SkyTables || s is SkyDraw || s is Overlay
}

/// Besides its plan, a frame bakes skins, culls for the eye and for shadows, draws shadows, and
/// with a camera those of the ground; then, unless the sky is switched off or its camera missing,
/// the sky's tables as seen by that camera, and the sky. The overlay comes last, if there is any.
pub proof fn a_frame_opens_and_closes(rend: &Renderer, lists: &FrameLists, ops: Seq<Plan3dOp>)
    ensures
        ({
            let camera = world_camera(lists);
            let sky = rend.sky_control != 0 && rend.sky_control != 0x8000_0000 && camera
                < lists.cameras;
            collected(
                |s: FrameStep| if_so(is_besides(s), s),
                rend.frame_steps(lists, ops),
            ) == seq![
                FrameStep::SkinBake,
                FrameStep::Cull,
                FrameStep::CullShadows,
                FrameStep::Shadows,
            ] + if_so(lists.cameras > 0, FrameStep::TerrainShadow) + if_so(
                sky,
                FrameStep::SkyTables { camera: camera as usize },
            ) + if_so(sky, FrameStep::SkyDraw) + if_so(
                lists.overlay_draws > 0,
                FrameStep::Overlay,
            )
        }),
{
    let f = |s: FrameStep| if_so(is_besides(s), s);
    let h = |op: Plan3dOp| Seq::<FrameStep>::empty();
    let none = Seq::<FrameStep>::empty();
    assert forall|a: int, b: int, c: bool, t: bool| collected(
        f,
        #[trigger] rend.segment_steps(lists, ops, a, b, c, t),
    ) == none + spread(h, ops, a, b) by {
        segment_collects(rend, lists, ops, a, b, c, t, f);
        prepass_collects(rend, lists, ops, a, b, f);
        color_collects(rend, lists, ops, a, b, c, t, f);
        water_collects(rend, lists, ops, a, b, t, f);
        flat_collects(rend, lists, ops, a, b, t, f);
        spread_makes_nothing(f, |op: Plan3dOp| lists.world_step(op, true), ops, a, b);
        spread_makes_nothing(f, |op: Plan3dOp| lists.world_step(op, false), ops, a, b);
        spread_makes_nothing(f, |op: Plan3dOp| lists.water_step(op), ops, a, b);
        spread_makes_nothing(f, |op: Plan3dOp| lists.flat_step(op, t), ops, a, b);
        spread_of_nothing(h, ops, a, b);
        assert(none + (none + none) + none + none =~= none + none);
    }
    let clear = !rend.draws_sky(lists);
    stretches_stream(rend, lists, ops, 0, clear, false, f, h, h, none);
    let at = toned_at(rend, ops, 0);
    spread_of_nothing(h, ops, 0, at);
    spread_of_nothing(h, ops, at, ops.len() as int);
    collected_nothing(f, rend.tonemap_steps());
    assert(none + none + none + none =~= none);
    let (x, y, z) = (
        rend.opening_steps(lists),
        rend.stretches(lists, ops, 0, clear, false),
        rend.overlay_steps(lists),
    );
    collected_joins(f, x + y, z);
    collected_joins(f, x, y);
    opening_is_kept(rend, lists);
    overlay_is_kept(rend, lists);
    assert(collected(f, x) + none + collected(f, z) =~= collected(f, x) + collected(f, z));
}

proof fn opening_is_kept(rend: &Renderer, lists: &FrameLists)
    ensures
        ({
            let camera = world_camera(lists);
            let sky = rend.sky_control != 0 && rend.sky_control != 0x8000_0000 && camera
                < lists.cameras;
            collected(
                |s: FrameStep| if_so(is_besides(s), s),
                rend.opening_steps(lists),
            ) == seq![
                FrameStep::SkinBake,
                FrameStep::Cull,
                FrameStep::CullShadows,
                FrameStep::Shadows,
            ] + if_so(lists.cameras > 0, FrameStep::TerrainShadow) + if_so(
                sky,
                FrameStep::SkyTables { camera: camera as usize },
            ) + if_so(sky, FrameStep::SkyDraw)
        }),
{
    let f = |s: FrameStep| if_so(is_besides(s), s);
    let none = Seq::<FrameStep>::empty();
    assert(float_eq(rend.sky_control, 0) == (rend.sky_control == 0 || rend.sky_control
        == 0x8000_0000));
    let first = seq![
        FrameStep::SkinBake,
        FrameStep::Cull,
        FrameStep::CullShadows,
        FrameStep::Shadows,
    ] + if_so(lists.cameras > 0, FrameStep::TerrainShadow);
    kept_whole(first);
    let all = rend.opening_steps(lists);
    if rend.draws_sky(lists) {
        let tables = FrameStep::SkyTables { camera: world_camera(lists) as usize };
        let n = first.len() as int;
        let begin = all[n + 1];
        let rest = seq![tables] + seq![begin] + seq![FrameStep::SkyDraw] + seq![FrameStep::End];
        assert(all =~= first + rest);
        collected_joins(f, first, rest);
        collected_joins(
            f,
            seq![tables] + seq![begin] + seq![FrameStep::SkyDraw],
            seq![FrameStep::End],
        );
        collected_joins(f, seq![tables] + seq![begin], seq![FrameStep::SkyDraw]);
        collected_joins(f, seq![tables], seq![begin]);
        collected_one(f, tables);
        collected_one(f, begin);
        collected_one(f, FrameStep::SkyDraw);
        collected_one(f, FrameStep::End);
        assert(first + (seq![tables] + none + seq![FrameStep::SkyDraw] + none) =~= first + seq![
            tables,
        ] + seq![FrameStep::SkyDraw]);
    } else {
        assert(all =~= first);
        assert(first + none + none =~= first);
    }
}

proof fn overlay_is_kept(rend: &Renderer, lists: &FrameLists)
    ensures
        collected(|s: FrameStep| if_so(is_besides(s), s), rend.overlay_steps(lists)) == if_so(
            lists.overlay_draws > 0,
            FrameStep::Overlay,
        ),
{
    let f = |s: FrameStep| if_so(is_besides(s), s);
    let none = Seq::<FrameStep>::empty();
    let all = rend.overlay_steps(lists);
    if all.len() > 0 {
        assert(all =~= seq![all[0]] + seq![FrameStep::Overlay] + seq![FrameStep::End]);
        collected_joins(f, seq![all[0]] + seq![FrameStep::Overlay], seq![FrameStep::End]);
        collected_joins(f, seq![all[0]], seq![FrameStep::Overlay]);
        collected_one(f, all[0]);
        collected_one(f, FrameStep::Overlay);
        collected_one(f, FrameStep::End);
        assert(none + seq![FrameStep::Overlay] + none =~= seq![FrameStep::Overlay]);
    }
}

proof fn kept_whole(steps: Seq<FrameStep>)
    requires
        forall|i: int| 0 <= i < steps.len() ==> is_besides(#[trigger] steps[i]),
    ensures
        collected(|s: FrameStep| if_so(is_besides(s), s), steps) == steps,
    decreases steps.len(),
{
    if steps.len() > 0 {
        let head = steps.drop_last();
        assert forall|i: int| 0 <= i < head.len() implies is_besides(#[trigger] head[i]) by {
            assert(head[i] == steps[i]);
        }
        kept_whole(head);
        assert(is_besides(steps[steps.len() - 1]));
        assert(steps =~= head + seq![steps.last()]);
    }
}

} // verus!
