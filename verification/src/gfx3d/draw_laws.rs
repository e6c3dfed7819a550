use crate::buckets::{
    bucketed, buckets_come_in_order, buckets_hold_the_items, first_place, first_place_is_first,
    first_seen, flat, members_of,
};
use crate::ffi::{WgrBlend, WgrCmd, WgrDepthMode, WgrDraw3D};
use crate::gfx3d::plan::{
    emit, frame_plan, group_key, is_drawn, is_instanceable, planned, step_of, Plan3dOp, PlanStep,
};
use crate::gfx3d::plan_laws::{
    a_barrier_splits_the_plan, a_plan_is_coalesced, a_stretch_is_coalesced, a_stretch_stays_open,
    drawn_key, equals_are_parted, is_barrier, is_coalesced, kept_draws, plan_covers_its_slots,
    plan_draws_what_was_asked, reorderable, shifted,
};
use crate::index::GroupKey;
use crate::slots::{canonical, Record};
use vstd::prelude::*;

verus! {

// What a plan is, said of the draws that it is made for and of the records of their meshes: how
// many indices a mesh has, how many vertices, and whether bones are attached to them.

/// The draw shows something: it has indices, and a live mesh has them too.
pub open spec fn shows(d: WgrDraw3D, meshes: Map<u64, Record>) -> bool {
    &&& d.index_count > 0
    &&& meshes.dom().contains(canonical(d.mesh))
    &&& d.index_begin + d.index_count <= meshes[canonical(d.mesh)].0
}

/// The draw moves with bones of its own: it names some, and its mesh has some.
pub open spec fn has_bones(d: WgrDraw3D, meshes: Map<u64, Record>) -> bool {
    d.palette_slot != 0xffff_ffff && meshes[canonical(d.mesh)].2 != 0
}

/// Nobody can tell when the draw is drawn: it covers what is behind it, is covered by what is
/// before it, and nothing is done to it besides.
pub open spec fn is_plain(d: WgrDraw3D, meshes: Map<u64, Record>) -> bool {
    &&& !has_bones(d, meshes)
    &&& d.blend == WgrBlend::Opaque
    &&& d.depth == WgrDepthMode::TestWrite
    &&& d.flags & 1 == 0
    &&& d.flags & 0x300 == 0
}

/// The draws differ in nothing but where they are, what they are made of, and how they lie on the
/// ground.
pub open spec fn are_alike(a: WgrDraw3D, b: WgrDraw3D) -> bool {
    &&& a.mesh == b.mesh
    &&& a.index_begin == b.index_begin
    &&& a.index_count == b.index_count
    &&& a.texture_id == b.texture_id
    &&& a.sampler == b.sampler
    &&& a.camera == b.camera
    &&& a.alpha_ref == b.alpha_ref
}

proof fn plainly_reordered(d: WgrDraw3D, meshes: Map<u64, Record>)
    ensures
        is_drawn(&d, meshes) == shows(d, meshes),
        shows(d, meshes) ==> is_instanceable(&d, meshes) == is_plain(d, meshes),
{
    let flags = d.flags;
    assert((flags & 0x300) >> 8u32 > 0 <==> flags & 0x300 != 0) by (bit_vector);
}

/// The command asks for a draw of a mesh that shows something.
pub open spec fn asks_to_draw(
    cmd: WgrCmd,
    draws: Seq<WgrDraw3D>,
    meshes: Map<u64, Record>,
) -> bool {
    cmd.kind == 1 && cmd.arg < draws.len() && shows(draws[cmd.arg as int], meshes)
}

proof fn what_a_command_does(cmd: WgrCmd, draws: Seq<WgrDraw3D>, meshes: Map<u64, Record>)
    ensures
        ({
            let plain = is_plain(draws[cmd.arg as int], meshes);
            match step_of(cmd, draws, meshes) {
                PlanStep::Join(key, arg) => asks_to_draw(cmd, draws, meshes) && plain && arg
                    == cmd.arg && key == group_key(&draws[arg as int]),
                PlanStep::Alone(arg) => asks_to_draw(cmd, draws, meshes) && !plain && arg
                    == cmd.arg,
                PlanStep::Other(op) => match op {
                    Plan3dOp::Draw2D(arg) => cmd.kind == 0 && arg == cmd.arg,
                    Plan3dOp::ClearDepth => cmd.kind == 2,
                    Plan3dOp::Terrain(arg) => cmd.kind == 3 && arg == cmd.arg,
                    Plan3dOp::Resolve => cmd.kind == 4,
                    Plan3dOp::Water(arg) => cmd.kind == 5 && arg == cmd.arg,
                    _ => false,
                },
                PlanStep::Skip => cmd.kind > 5 || (cmd.kind == 1 && !asks_to_draw(
                    cmd,
                    draws,
                    meshes,
                )),
            }
        }),
{
    if cmd.arg < draws.len() {
        plainly_reordered(draws[cmd.arg as int], meshes);
    }
}

/// Everything in the slots of one instanced draw shows something and is like the draw that it is
/// made of. Where there are several, all are plain; so what moves with bones is drawn alone.
pub proof fn slots_of_a_draw_are_alike(
    cmds: Seq<WgrCmd>,
    draws: Seq<WgrDraw3D>,
    meshes: Map<u64, Record>,
    i: int,
    s: int,
)
    requires
        cmds.len() <= u32::MAX,
        0 <= i < frame_plan(cmds, draws, meshes).ops.len(),
        frame_plan(cmds, draws, meshes).ops[i] matches Plan3dOp::Draw3D { base, count, .. } && base
            <= s < base + count,
    ensures
        ({
            let plan = frame_plan(cmds, draws, meshes);
            let (x, op) = (plan.order[s], plan.ops[i]);
            let (d, first) = (draws[x as int], draws[op->draw as int]);
            &&& s < plan.order.len()
            &&& x < draws.len()
            &&& op->draw < draws.len()
            &&& plan.order[op->base as int] == op->draw
            &&& shows(d, meshes)
            &&& are_alike(d, first)
            &&& op->count > 1 ==> is_plain(d, meshes)
            &&& has_bones(d, meshes) ==> op->count == 1 && x == op->draw
        }),
{
    let plan = frame_plan(cmds, draws, meshes);
    plan_covers_its_slots(cmds, draws, meshes);
    let (op, x) = (plan.ops[i], plan.order[s]);
    assert(op->base + op->count <= plan.order.len());
    assert(x < draws.len());
    plainly_reordered(draws[x as int], meshes);
}

/// How often `cmds` ask for the draw `x`, if it shows something.
pub open spec fn times_asked(
    cmds: Seq<WgrCmd>,
    draws: Seq<WgrDraw3D>,
    meshes: Map<u64, Record>,
    x: u32,
) -> nat
    decreases cmds.len(),
{
    if cmds.len() == 0 {
        0
    } else {
        times_asked(cmds.drop_last(), draws, meshes, x) + if cmds.last().arg == x && asks_to_draw(
            cmds.last(),
            draws,
            meshes,
        ) {
            1
        } else {
            0nat
        }
    }
}

proof fn kept_draws_are_asked_for(
    cmds: Seq<WgrCmd>,
    draws: Seq<WgrDraw3D>,
    meshes: Map<u64, Record>,
    x: u32,
)
    ensures
        kept_draws(cmds, draws, meshes).to_multiset().count(x) == times_asked(
            cmds,
            draws,
            meshes,
            x,
        ),
    decreases cmds.len(),
{
    broadcast use vstd::seq_lib::group_to_multiset_ensures;

    if cmds.len() > 0 {
        kept_draws_are_asked_for(cmds.drop_last(), draws, meshes, x);
        what_a_command_does(cmds.last(), draws, meshes);
    }
}

/// A draw has as many slots as it is asked for, if it shows something, and none if it does not.
pub proof fn draws_are_planned_as_often_as_asked(
    cmds: Seq<WgrCmd>,
    draws: Seq<WgrDraw3D>,
    meshes: Map<u64, Record>,
    x: u32,
)
    requires
        cmds.len() <= u32::MAX,
    ensures
        frame_plan(cmds, draws, meshes).order.to_multiset().count(x) == times_asked(
            cmds,
            draws,
            meshes,
            x,
        ),
{
    plan_draws_what_was_asked(cmds, draws, meshes);
    kept_draws_are_asked_for(cmds, draws, meshes, x);
}

/// What else a command can ask for.
pub open spec fn other_step(cmd: WgrCmd) -> Plan3dOp {
    if cmd.kind == 0 {
        Plan3dOp::Draw2D(cmd.arg)
    } else if cmd.kind == 2 {
        Plan3dOp::ClearDepth
    } else if cmd.kind == 3 {
        Plan3dOp::Terrain(cmd.arg)
    } else if cmd.kind == 4 {
        Plan3dOp::Resolve
    } else {
        Plan3dOp::Water(cmd.arg)
    }
}

/// The steps with their slots moved up by `by`.
pub open spec fn moved_up(ops: Seq<Plan3dOp>, by: int) -> Seq<Plan3dOp> {
    ops.map_values(
        |op: Plan3dOp|
            match op {
                Plan3dOp::Draw3D { draw, base, count } => Plan3dOp::Draw3D {
                    draw,
                    base: (base + by) as u32,
                    count,
                },
                other => other,
            },
    )
}

proof fn moved_up_is_shifted(ops: Seq<Plan3dOp>, by: int)
    ensures
        ops.map_values(|op: Plan3dOp| shifted(op, by)) == moved_up(ops, by),
{
    assert(ops.map_values(|op: Plan3dOp| shifted(op, by)) =~= moved_up(ops, by));
}

/// Nothing is reordered across a draw that shows something and is not plain, nor across anything
/// that is no draw of a mesh: it has its step, and what was asked for before it and after it is
/// planned as if there were nothing else.
pub proof fn a_plan_is_split(
    before: Seq<WgrCmd>,
    cmd: WgrCmd,
    after: Seq<WgrCmd>,
    draws: Seq<WgrDraw3D>,
    meshes: Map<u64, Record>,
)
    requires
        before.len() + 1 + after.len() <= u32::MAX,
        cmd.kind <= 5,
        cmd.kind == 1 ==> asks_to_draw(cmd, draws, meshes) && !is_plain(
            draws[cmd.arg as int],
            meshes,
        ),
    ensures
        ({
            let (head, tail) = (
                frame_plan(before, draws, meshes),
                frame_plan(after, draws, meshes),
            );
            let whole = frame_plan(before.push(cmd) + after, draws, meshes);
            if cmd.kind == 1 {
                let step = Plan3dOp::Draw3D {
                    draw: cmd.arg,
                    base: head.order.len() as u32,
                    count: 1,
                };
                &&& whole.order == head.order.push(cmd.arg) + tail.order
                &&& whole.ops == head.ops.push(step) + moved_up(
                    tail.ops,
                    head.order.len() as int + 1,
                )
            } else {
                &&& whole.order == head.order + tail.order
                &&& whole.ops == head.ops.push(other_step(cmd)) + moved_up(
                    tail.ops,
                    head.order.len() as int,
                )
            }
        }),
{
    what_a_command_does(cmd, draws, meshes);
    a_barrier_splits_the_plan(before, cmd, after, draws, meshes);
    let (head, tail) = (frame_plan(before, draws, meshes), frame_plan(after, draws, meshes));
    moved_up_is_shifted(tail.ops, head.order.len() as int + 1);
    moved_up_is_shifted(tail.ops, head.order.len() as int);
}

proof fn skipping_changes_nothing(
    before: Seq<WgrCmd>,
    cmd: WgrCmd,
    after: Seq<WgrCmd>,
    draws: Seq<WgrDraw3D>,
    meshes: Map<u64, Record>,
)
    requires
        step_of(cmd, draws, meshes) is Skip,
    ensures
        planned(before.push(cmd) + after, draws, meshes) == planned(before + after, draws, meshes),
    decreases after.len(),
{
    let (with, without) = (before.push(cmd) + after, before + after);
    if after.len() == 0 {
        assert(with =~= before.push(cmd));
        assert(without =~= before);
        assert(before.push(cmd).drop_last() =~= before);
    } else {
        skipping_changes_nothing(before, cmd, after.drop_last(), draws, meshes);
        assert(with.drop_last() =~= before.push(cmd) + after.drop_last());
        assert(without.drop_last() =~= before + after.drop_last());
    }
}

/// Commands of no known kind, and those for draws that show nothing, might as well not be there.
pub proof fn what_shows_nothing_changes_nothing(
    before: Seq<WgrCmd>,
    cmd: WgrCmd,
    after: Seq<WgrCmd>,
    draws: Seq<WgrDraw3D>,
    meshes: Map<u64, Record>,
)
    requires
        cmd.kind > 5 || (cmd.kind == 1 && !asks_to_draw(cmd, draws, meshes)),
    ensures
        frame_plan(before.push(cmd) + after, draws, meshes) == frame_plan(
            before + after,
            draws,
            meshes,
        ),
{
    what_a_command_does(cmd, draws, meshes);
    skipping_changes_nothing(before, cmd, after, draws, meshes);
}

/// The step is an instanced draw of something plain.
pub open spec fn draws_plainly(
    op: Plan3dOp,
    draws: Seq<WgrDraw3D>,
    meshes: Map<u64, Record>,
) -> bool {
    op matches Plan3dOp::Draw3D { draw, .. } && draw < draws.len() && is_plain(
        draws[draw as int],
        meshes,
    )
}

/// Two instanced draws of what is plain and alike are two only because a step that is none stands
/// between them.
pub proof fn alike_is_drawn_together(
    cmds: Seq<WgrCmd>,
    draws: Seq<WgrDraw3D>,
    meshes: Map<u64, Record>,
    i: int,
    j: int,
)
    requires
        cmds.len() <= u32::MAX,
        0 <= i < j < frame_plan(cmds, draws, meshes).ops.len(),
        draws_plainly(frame_plan(cmds, draws, meshes).ops[i], draws, meshes),
        draws_plainly(frame_plan(cmds, draws, meshes).ops[j], draws, meshes),
        are_alike(
            draws[frame_plan(cmds, draws, meshes).ops[i]->draw as int],
            draws[frame_plan(cmds, draws, meshes).ops[j]->draw as int],
        ),
    ensures
        exists|k: int|
            i < k < j && !draws_plainly(
                #[trigger] frame_plan(cmds, draws, meshes).ops[k],
                draws,
                meshes,
            ),
{
    let ops = frame_plan(cmds, draws, meshes).ops;
    plan_covers_its_slots(cmds, draws, meshes);
    a_plan_is_coalesced(cmds, draws, meshes);
    assert forall|k: int| 0 <= k < ops.len() implies draws_plainly(
        #[trigger] ops[k],
        draws,
        meshes,
    ) == is_coalesced(ops[k], draws, meshes) by {
        if ops[k] is Draw3D {
            slots_of_a_draw_are_alike(cmds, draws, meshes, k, ops[k]->base as int);
            plainly_reordered(draws[ops[k]->draw as int], meshes);
        }
    }
    assert(drawn_key(ops[i], draws) == drawn_key(ops[j], draws));
    assert(equals_are_parted(ops, draws, meshes));
    let k = choose|k: int| i < k < j && !is_coalesced(#[trigger] ops[k], draws, meshes);
    assert(!draws_plainly(ops[k], draws, meshes));
}

/// The plain draws that `cmds` ask for and that show something, in order.
pub open spec fn plain_draws(
    cmds: Seq<WgrCmd>,
    draws: Seq<WgrDraw3D>,
    meshes: Map<u64, Record>,
) -> Seq<u32>
    decreases cmds.len(),
{
    if cmds.len() == 0 {
        Seq::empty()
    } else {
        let before = plain_draws(cmds.drop_last(), draws, meshes);
        let cmd = cmds.last();
        if asks_to_draw(cmd, draws, meshes) && is_plain(draws[cmd.arg as int], meshes) {
            before.push(cmd.arg)
        } else {
            before
        }
    }
}

/// Those of `asked` that are like `d`, in order.
pub open spec fn like(asked: Seq<u32>, d: WgrDraw3D, draws: Seq<WgrDraw3D>) -> Seq<u32>
    decreases asked.len(),
{
    if asked.len() == 0 {
        Seq::empty()
    } else {
        let before = like(asked.drop_last(), d, draws);
        if are_alike(draws[asked.last() as int], d) {
            before.push(asked.last())
        } else {
            before
        }
    }
}

spec fn with_keys(asked: Seq<u32>, draws: Seq<WgrDraw3D>) -> Seq<(GroupKey, u32)> {
    asked.map_values(|x: u32| (group_key(&draws[x as int]), x))
}

proof fn reorderable_is_plain(
    cmds: Seq<WgrCmd>,
    draws: Seq<WgrDraw3D>,
    meshes: Map<u64, Record>,
)
    ensures
        reorderable(cmds, draws, meshes) == with_keys(plain_draws(cmds, draws, meshes), draws),
    decreases cmds.len(),
{
    let asked = plain_draws(cmds, draws, meshes);
    if cmds.len() > 0 {
        let before = plain_draws(cmds.drop_last(), draws, meshes);
        reorderable_is_plain(cmds.drop_last(), draws, meshes);
        what_a_command_does(cmds.last(), draws, meshes);
        if asked.len() > before.len() {
            assert(with_keys(asked, draws) =~= with_keys(before, draws).push(
                (group_key(&draws[asked.last() as int]), asked.last()),
            ));
        }
    }
    assert(reorderable(cmds, draws, meshes) =~= with_keys(asked, draws));
}

proof fn members_are_alike(asked: Seq<u32>, d: WgrDraw3D, draws: Seq<WgrDraw3D>)
    ensures
        members_of(with_keys(asked, draws), group_key(&d)) == like(asked, d, draws),
    decreases asked.len(),
{
    if asked.len() > 0 {
        members_are_alike(asked.drop_last(), d, draws);
        assert(with_keys(asked, draws).drop_last() =~= with_keys(asked.drop_last(), draws));
    }
}

proof fn groups_have_slots_of_their_own(order: Seq<u32>, ops: Seq<Plan3dOp>, groups: Seq<Seq<u32>>)
    requires
        order.len() + flat(groups).len() <= u32::MAX,
    ensures
        ({
            let (o, p) = emit(order, ops, groups);
            &&& o == order + flat(groups)
            &&& p.len() == ops.len() + groups.len()
            &&& forall|i: int|
                ops.len() <= i < p.len() ==> {
                    let op = #[trigger] p[i];
                    &&& op is Draw3D
                    &&& op->base + op->count <= o.len()
                    &&& o.subrange(op->base as int, op->base + op->count) == groups[i - ops.len()]
                }
        }),
    decreases groups.len(),
{
    let (o, p) = emit(order, ops, groups);
    if groups.len() == 0 {
        assert(order + flat(groups) =~= order);
    } else {
        let before = groups.drop_last();
        groups_have_slots_of_their_own(order, ops, before);
        let (o1, p1) = emit(order, ops, before);
        assert(order + flat(groups) =~= o1 + groups.last());
        assert forall|i: int| ops.len() <= i < p.len() implies {
            let op = #[trigger] p[i];
            &&& op is Draw3D
            &&& op->base + op->count <= o.len()
            &&& o.subrange(op->base as int, op->base + op->count) == groups[i - ops.len()]
        } by {
            if i < p1.len() {
                let op = p1[i];
                assert(p[i] == op);
                assert(o.subrange(op->base as int, op->base + op->count) =~= o1.subrange(
                    op->base as int,
                    op->base + op->count,
                ));
            } else {
                assert(o.subrange(o1.len() as int, o.len() as int) =~= groups.last());
            }
        }
    }
}

/// Where only plain draws are asked for, the slots of an instanced draw hold all that are like it,
/// in the order asked for.
pub proof fn a_draw_holds_all_its_likes(
    cmds: Seq<WgrCmd>,
    draws: Seq<WgrDraw3D>,
    meshes: Map<u64, Record>,
    i: int,
)
    requires
        cmds.len() <= u32::MAX,
        forall|c: int|
            0 <= c < cmds.len() ==> {
                let cmd = #[trigger] cmds[c];
                cmd.kind > 5 || (cmd.kind == 1 && (asks_to_draw(cmd, draws, meshes) ==> is_plain(
                    draws[cmd.arg as int],
                    meshes,
                )))
            },
        0 <= i < frame_plan(cmds, draws, meshes).ops.len(),
    ensures
        ({
            let plan = frame_plan(cmds, draws, meshes);
            let op = plan.ops[i];
            &&& op is Draw3D
            &&& op->base + op->count <= plan.order.len()
            &&& plan.order.subrange(op->base as int, op->base + op->count) == like(
                plain_draws(cmds, draws, meshes),
                draws[op->draw as int],
                draws,
            )
        }),
{
    let asked = plain_draws(cmds, draws, meshes);
    let run = reorderable(cmds, draws, meshes);
    assert forall|c: int| 0 <= c < cmds.len() implies !is_barrier(
        #[trigger] cmds[c],
        draws,
        meshes,
    ) by {
        what_a_command_does(cmds[c], draws, meshes);
    }
    a_stretch_stays_open(cmds, draws, meshes);
    a_stretch_is_coalesced(cmds, draws, meshes);
    reorderable_is_plain(cmds, draws, meshes);
    let st = planned(cmds, draws, meshes);
    let plan = frame_plan(cmds, draws, meshes);
    let op = plan.ops[i];
    asked_fits(cmds, draws, meshes);
    buckets_hold_the_items(run);
    groups_have_slots_of_their_own(st.order, st.ops, bucketed(run));
    buckets_come_in_order(run);
    let key = first_seen(run)[i];
    assert(bucketed(run)[i] == members_of(run, key));
    members_are_alike(asked, draws[op->draw as int], draws);
    plan_covers_its_slots(cmds, draws, meshes);
    assert(plan.order[op->base as int] == op->draw);
    assert(plan.order.subrange(op->base as int, op->base + op->count)[0] == op->draw);
    assert(run[first_place(run, key)] == (key, op->draw));
    assert(run[first_place(run, key)] == (group_key(&draws[op->draw as int]), op->draw)) by {
        let p = first_place(run, key);
        assert(run[p] == with_keys(asked, draws)[p]);
    }
}

proof fn asked_fits(cmds: Seq<WgrCmd>, draws: Seq<WgrDraw3D>, meshes: Map<u64, Record>)
    ensures
        reorderable(cmds, draws, meshes).len() <= cmds.len(),
    decreases cmds.len(),
{
    if cmds.len() > 0 {
        asked_fits(cmds.drop_last(), draws, meshes);
    }
}

/// Where only plain draws are asked for, instanced draws come in the order in which what they draw
/// was first asked for.
pub proof fn draws_come_as_first_asked(
    cmds: Seq<WgrCmd>,
    draws: Seq<WgrDraw3D>,
    meshes: Map<u64, Record>,
    i: int,
    j: int,
)
    requires
        cmds.len() <= u32::MAX,
        forall|c: int|
            0 <= c < cmds.len() ==> {
                let cmd = #[trigger] cmds[c];
                cmd.kind > 5 || (cmd.kind == 1 && (asks_to_draw(cmd, draws, meshes) ==> is_plain(
                    draws[cmd.arg as int],
                    meshes,
                )))
            },
        0 <= i < j < frame_plan(cmds, draws, meshes).ops.len(),
    ensures
        ({
            let (a, b) = (
                frame_plan(cmds, draws, meshes).ops[i],
                frame_plan(cmds, draws, meshes).ops[j],
            );
            let asked = plain_draws(cmds, draws, meshes);
            &&& a is Draw3D && b is Draw3D
            &&& exists|p: int, q: int|
                #![trigger asked[p], asked[q]]
                0 <= p < q < asked.len() && asked[p] == a->draw && asked[q] == b->draw && (forall|
                    r: int,
                |
                    0 <= r < q ==> !are_alike(
                        draws[#[trigger] asked[r] as int],
                        draws[b->draw as int],
                    )) && (forall|r: int|
                    0 <= r < p ==> !are_alike(
                        draws[#[trigger] asked[r] as int],
                        draws[a->draw as int],
                    ))
        }),
{
    let ops = frame_plan(cmds, draws, meshes).ops;
    let (a, b) = (ops[i], ops[j]);
    let asked = plain_draws(cmds, draws, meshes);
    let run = reorderable(cmds, draws, meshes);
    assert forall|c: int| 0 <= c < cmds.len() implies !is_barrier(
        #[trigger] cmds[c],
        draws,
        meshes,
    ) by {
        what_a_command_does(cmds[c], draws, meshes);
    }
    a_stretch_is_coalesced(cmds, draws, meshes);
    reorderable_is_plain(cmds, draws, meshes);
    let (ka, kb) = (drawn_key(a, draws), drawn_key(b, draws));
    let (p, q) = (first_place(run, ka), first_place(run, kb));
    first_place_is_first(run, ka);
    first_place_is_first(run, kb);
    assert(run[p] == (ka, asked[p]));
    assert(run[q] == (kb, asked[q]));
    assert forall|r: int| 0 <= r < q implies !are_alike(
        draws[#[trigger] asked[r] as int],
        draws[b->draw as int],
    ) by {
        assert(run[r].0 == group_key(&draws[asked[r] as int]));
    }
    assert forall|r: int| 0 <= r < p implies !are_alike(
        draws[#[trigger] asked[r] as int],
        draws[a->draw as int],
    ) by {
        assert(run[r].0 == group_key(&draws[asked[r] as int]));
    }
}

} // verus!
