use crate::buckets::{
    bucketed, buckets_come_in_order, buckets_hold_the_items, first_place, first_seen,
    first_seen_lists_each_key_once, flat, members_come_from_items,
};
use crate::ffi::{WgrCmd, WgrDraw3D};
use crate::gfx3d::plan::{
    emit, flushed, frame_plan, group_key, is_drawn, is_instanceable, planned, step_of, stepped,
    Plan3dOp, PlanState, PlanStep,
};
use crate::index::GroupKey;
use crate::slots::Record;
use vstd::prelude::*;

verus! {

/// How many slots the instanced draws of `ops` cover.
pub open spec fn slots_drawn(ops: Seq<Plan3dOp>) -> nat
    decreases ops.len(),
{
    if ops.len() == 0 {
        0
    } else {
        slots_drawn(ops.drop_last()) + match ops.last() {
            Plan3dOp::Draw3D { draw, base, count } => count as nat,
            _ => 0,
        }
    }
}

/// The instanced draws cover the slots one after the other, each from where the one before
/// ended, each at least one, and each starting with the draw it is made of.
pub open spec fn draws_tile(order: Seq<u32>, ops: Seq<Plan3dOp>) -> bool {
    &&& slots_drawn(ops) == order.len()
    &&& forall|i: int|
        #![trigger ops[i]]
        0 <= i < ops.len() ==> (ops[i] matches Plan3dOp::Draw3D { draw, base, count } ==> {
            &&& base == slots_drawn(ops.take(i))
            &&& count > 0
            &&& base + count <= order.len()
            &&& order[base as int] == draw
        })
}

/// Every slot of an instanced draw holds a draw that shows something and agrees with the one
/// it is made of on all that they share; where there are several, all may be reordered.
pub open spec fn draws_agree(
    order: Seq<u32>,
    ops: Seq<Plan3dOp>,
    draws: Seq<WgrDraw3D>,
    meshes: Map<u64, Record>,
) -> bool {
    forall|i: int, s: int|
        #![trigger ops[i], order[s]]
        0 <= i < ops.len() ==> (ops[i] matches Plan3dOp::Draw3D { draw, base, count } ==> base <= s
            < base + count && s < order.len() ==> {
            &&& draw < draws.len()
            &&& order[s] < draws.len()
            &&& is_drawn(&draws[order[s] as int], meshes)
            &&& group_key(&draws[order[s] as int]) == group_key(&draws[draw as int])
            &&& count > 1 ==> is_instanceable(&draws[order[s] as int], meshes)
        })
}

/// The open run holds draws that show something and may be reordered, under their keys.
spec fn run_agrees(
    run: Seq<(GroupKey, u32)>,
    draws: Seq<WgrDraw3D>,
    meshes: Map<u64, Record>,
) -> bool {
    forall|i: int|
        0 <= i < run.len() ==> {
            let (key, arg) = #[trigger] run[i];
            &&& arg < draws.len()
            &&& is_drawn(&draws[arg as int], meshes)
            &&& is_instanceable(&draws[arg as int], meshes)
            &&& key == group_key(&draws[arg as int])
        }
}

spec fn group_agrees(group: Seq<u32>, draws: Seq<WgrDraw3D>, meshes: Map<u64, Record>) -> bool {
    &&& group.len() > 0
    &&& forall|k: int|
        0 <= k < group.len() ==> {
            let arg = #[trigger] group[k];
            &&& arg < draws.len()
            &&& is_drawn(&draws[arg as int], meshes)
            &&& is_instanceable(&draws[arg as int], meshes)
            &&& group_key(&draws[arg as int]) == group_key(&draws[group[0] as int])
        }
}

proof fn groups_of_a_run_agree(
    run: Seq<(GroupKey, u32)>,
    draws: Seq<WgrDraw3D>,
    meshes: Map<u64, Record>,
)
    requires
        run_agrees(run, draws, meshes),
    ensures
        forall|g: int|
            0 <= g < bucketed(run).len() ==> group_agrees(
                #[trigger] bucketed(run)[g],
                draws,
                meshes,
            ),
{
    buckets_hold_the_items(run);
    assert forall|g: int| 0 <= g < bucketed(run).len() implies group_agrees(
        #[trigger] bucketed(run)[g],
        draws,
        meshes,
    ) by {
        let key = first_seen(run)[g];
        let group = bucketed(run)[g];
        members_come_from_items(run, key);
        let first = choose|i: int| 0 <= i < run.len() && run[i] == (key, group[0]);
        assert(run[first].0 == key);
        assert forall|k: int| 0 <= k < group.len() implies {
            let arg = #[trigger] group[k];
            &&& arg < draws.len()
            &&& is_drawn(&draws[arg as int], meshes)
            &&& is_instanceable(&draws[arg as int], meshes)
            &&& group_key(&draws[arg as int]) == group_key(&draws[group[0] as int])
        } by {
            let i = choose|i: int| 0 <= i < run.len() && run[i] == (key, group[k]);
            assert(run[i].1 == group[k]);
        }
    }
}

/// What holds of a plan under construction.
spec fn sound(st: PlanState, draws: Seq<WgrDraw3D>, meshes: Map<u64, Record>) -> bool {
    &&& draws_tile(st.order, st.ops)
    &&& draws_agree(st.order, st.ops, draws, meshes)
    &&& run_agrees(st.run, draws, meshes)
}

proof fn one_more_draw(
    order: Seq<u32>,
    ops: Seq<Plan3dOp>,
    group: Seq<u32>,
    draws: Seq<WgrDraw3D>,
    meshes: Map<u64, Record>,
)
    requires
        draws_tile(order, ops),
        draws_agree(order, ops, draws, meshes),
        group.len() > 0,
        group.len() > 1 ==> group_agrees(group, draws, meshes),
        group[0] < draws.len(),
        is_drawn(&draws[group[0] as int], meshes),
        order.len() + group.len() <= u32::MAX,
    ensures
        ({
            let op = Plan3dOp::Draw3D {
                draw: group[0],
                base: order.len() as u32,
                count: group.len() as u32,
            };
            draws_tile(order + group, ops.push(op)) && draws_agree(
                order + group,
                ops.push(op),
                draws,
                meshes,
            )
        }),
{
    let op = Plan3dOp::Draw3D {
        draw: group[0],
        base: order.len() as u32,
        count: group.len() as u32,
    };
    let (order2, ops2) = (order + group, ops.push(op));
    assert(ops2.drop_last() =~= ops);
    assert forall|i: int|
        #![trigger ops2[i]]
        0 <= i < ops2.len() implies (ops2[i] matches Plan3dOp::Draw3D { draw, base, count } ==> {
        &&& base == slots_drawn(ops2.take(i))
        &&& count > 0
        &&& base + count <= order2.len()
        &&& order2[base as int] == draw
    }) by {
        assert(ops2.take(i) =~= ops.take(i));
        if i < ops.len() {
            assert(ops2[i] == ops[i]);
        } else {
            assert(ops.take(i) =~= ops);
        }
    }
    assert forall|i: int, s: int|
        #![trigger ops2[i], order2[s]]
        0 <= i < ops2.len() implies (ops2[i] matches Plan3dOp::Draw3D { draw, base, count } ==> base
        <= s < base + count && s < order2.len() ==> {
        &&& draw < draws.len()
        &&& order2[s] < draws.len()
        &&& is_drawn(&draws[order2[s] as int], meshes)
        &&& group_key(&draws[order2[s] as int]) == group_key(&draws[draw as int])
        &&& count > 1 ==> is_instanceable(&draws[order2[s] as int], meshes)
    }) by {
        if i < ops.len() {
            assert(ops2[i] == ops[i]);
            if 0 <= s < order.len() {
                assert(order2[s] == order[s]);
            }
        } else if order.len() <= s < order2.len() {
            assert(order2[s] == group[s - order.len()]);
        }
    }
}

proof fn drawing_groups_is_sound(
    order: Seq<u32>,
    ops: Seq<Plan3dOp>,
    groups: Seq<Seq<u32>>,
    draws: Seq<WgrDraw3D>,
    meshes: Map<u64, Record>,
)
    requires
        draws_tile(order, ops),
        draws_agree(order, ops, draws, meshes),
        forall|g: int| 0 <= g < groups.len() ==> group_agrees(#[trigger] groups[g], draws, meshes),
        order.len() + flat(groups).len() <= u32::MAX,
    ensures
        draws_tile(emit(order, ops, groups).0, emit(order, ops, groups).1),
        draws_agree(emit(order, ops, groups).0, emit(order, ops, groups).1, draws, meshes),
        emit(order, ops, groups).0 == order + flat(groups),
    decreases groups.len(),
{
    if groups.len() > 0 {
        let before = groups.drop_last();
        assert forall|g: int| 0 <= g < before.len() implies group_agrees(
            #[trigger] before[g],
            draws,
            meshes,
        ) by {
            assert(before[g] == groups[g]);
        }
        drawing_groups_is_sound(order, ops, before, draws, meshes);
        let (o, p) = emit(order, ops, before);
        let group = groups[groups.len() - 1];
        assert(group_agrees(group, draws, meshes));
        assert(group[0] < draws.len());
        one_more_draw(o, p, group, draws, meshes);
        assert(emit(order, ops, groups).0 =~= order + flat(groups));
    } else {
        assert(order + flat(groups) =~= order);
    }
}

proof fn flushing_is_sound(st: PlanState, draws: Seq<WgrDraw3D>, meshes: Map<u64, Record>)
    requires
        sound(st, draws, meshes),
        st.order.len() + st.run.len() <= u32::MAX,
    ensures
        sound(flushed(st), draws, meshes),
        flushed(st).order == st.order + flat(bucketed(st.run)),
        flushed(st).order.len() == st.order.len() + st.run.len(),
{
    groups_of_a_run_agree(st.run, draws, meshes);
    buckets_hold_the_items(st.run);
    drawing_groups_is_sound(st.order, st.ops, bucketed(st.run), draws, meshes);
}

proof fn planning_is_sound(cmds: Seq<WgrCmd>, draws: Seq<WgrDraw3D>, meshes: Map<u64, Record>)
    requires
        cmds.len() <= u32::MAX,
    ensures
        sound(planned(cmds, draws, meshes), draws, meshes),
        planned(cmds, draws, meshes).order.len() + planned(cmds, draws, meshes).run.len()
            <= cmds.len(),
    decreases cmds.len(),
{
    if cmds.len() > 0 {
        let before = cmds.drop_last();
        planning_is_sound(before, draws, meshes);
        let st = planned(before, draws, meshes);
        flushing_is_sound(st, draws, meshes);
        let f = flushed(st);
        match step_of(cmds.last(), draws, meshes) {
            PlanStep::Skip => {},
            PlanStep::Join(key, arg) => {},
            PlanStep::Alone(arg) => {
                one_more_draw(f.order, f.ops, seq![arg], draws, meshes);
                assert(f.order + seq![arg] =~= f.order.push(arg));
            },
            PlanStep::Other(op) => {
                let ops2 = f.ops.push(op);
                assert(ops2.drop_last() =~= f.ops);
                assert forall|i: int|
                    #![trigger ops2[i]]
                    0 <= i < ops2.len() implies (ops2[i] matches Plan3dOp::Draw3D {
                    draw,
                    base,
                    count,
                } ==> {
                    &&& base == slots_drawn(ops2.take(i))
                    &&& count > 0
                    &&& base + count <= f.order.len()
                    &&& f.order[base as int] == draw
                }) by {
                    if i < f.ops.len() {
                        assert(ops2[i] == f.ops[i]);
                        assert(ops2.take(i) =~= f.ops.take(i));
                    }
                }
            },
        }
    }
}

/// The instanced draws of a plan cover its slots exactly, and every slot of a draw agrees with
/// it on mesh, section, texture, sampler, camera and pipeline.
pub proof fn plan_covers_its_slots(
    cmds: Seq<WgrCmd>,
    draws: Seq<WgrDraw3D>,
    meshes: Map<u64, Record>,
)
    requires
        cmds.len() <= u32::MAX,
    ensures
        draws_tile(frame_plan(cmds, draws, meshes).order, frame_plan(cmds, draws, meshes).ops),
        draws_agree(
            frame_plan(cmds, draws, meshes).order,
            frame_plan(cmds, draws, meshes).ops,
            draws,
            meshes,
        ),
{
    planning_is_sound(cmds, draws, meshes);
    flushing_is_sound(planned(cmds, draws, meshes), draws, meshes);
}

/// The draws that `cmds` ask for and that show anything, in order.
pub open spec fn kept_draws(
    cmds: Seq<WgrCmd>,
    draws: Seq<WgrDraw3D>,
    meshes: Map<u64, Record>,
) -> Seq<u32>
    decreases cmds.len(),
{
    if cmds.len() == 0 {
        Seq::empty()
    } else {
        let before = kept_draws(cmds.drop_last(), draws, meshes);
        match step_of(cmds.last(), draws, meshes) {
            PlanStep::Join(key, arg) => before.push(arg),
            PlanStep::Alone(arg) => before.push(arg),
            _ => before,
        }
    }
}

/// A plan draws exactly what was asked for and shows anything, as often as it was asked for.
pub proof fn plan_draws_what_was_asked(
    cmds: Seq<WgrCmd>,
    draws: Seq<WgrDraw3D>,
    meshes: Map<u64, Record>,
)
    requires
        cmds.len() <= u32::MAX,
    ensures
        frame_plan(cmds, draws, meshes).order.to_multiset() =~= kept_draws(
            cmds,
            draws,
            meshes,
        ).to_multiset(),
{
    planning_keeps_draws(cmds, draws, meshes);
    planning_is_sound(cmds, draws, meshes);
    let st = planned(cmds, draws, meshes);
    flushing_is_sound(st, draws, meshes);
    flushing_keeps_draws(st);
}

spec fn run_args(run: Seq<(GroupKey, u32)>) -> Seq<u32> {
    run.map_values(|item: (GroupKey, u32)| item.1)
}

proof fn flushing_keeps_draws(st: PlanState)
    requires
        flushed(st).order == st.order + flat(bucketed(st.run)),
    ensures
        flushed(st).order.to_multiset() =~= st.order.to_multiset().add(
            run_args(st.run).to_multiset(),
        ),
{
    buckets_hold_the_items(st.run);
    vstd::seq_lib::lemma_multiset_commutative(st.order, flat(bucketed(st.run)));
}

proof fn planning_keeps_draws(cmds: Seq<WgrCmd>, draws: Seq<WgrDraw3D>, meshes: Map<u64, Record>)
    requires
        cmds.len() <= u32::MAX,
    ensures
        ({
            let st = planned(cmds, draws, meshes);
            st.order.to_multiset().add(run_args(st.run).to_multiset()) =~= kept_draws(
                cmds,
                draws,
                meshes,
            ).to_multiset()
        }),
    decreases cmds.len(),
{
    broadcast use vstd::seq_lib::group_to_multiset_ensures;

    let st = planned(cmds, draws, meshes);
    if cmds.len() == 0 {
        assert(run_args(st.run) =~= Seq::empty());
    } else {
        let before = planned(cmds.drop_last(), draws, meshes);
        planning_keeps_draws(cmds.drop_last(), draws, meshes);
        planning_is_sound(cmds.drop_last(), draws, meshes);
        flushing_is_sound(before, draws, meshes);
        flushing_keeps_draws(before);
        match step_of(cmds.last(), draws, meshes) {
            PlanStep::Skip => {},
            PlanStep::Join(key, arg) => {
                assert(run_args(st.run) =~= run_args(before.run).push(arg));
            },
            PlanStep::Alone(arg) => {
                assert(run_args(st.run) =~= Seq::empty());
            },
            PlanStep::Other(op) => {
                assert(run_args(st.run) =~= Seq::empty());
            },
        }
    }
}

/// The steps of `ops` other than instanced draws.
pub open spec fn other_ops(ops: Seq<Plan3dOp>) -> Seq<Plan3dOp>
    decreases ops.len(),
{
    if ops.len() == 0 {
        Seq::empty()
    } else {
        let before = other_ops(ops.drop_last());
        match ops.last() {
            Plan3dOp::Draw3D { draw, base, count } => before,
            op => before.push(op),
        }
    }
}

/// The steps other than draws of meshes that `cmds` ask for, in order.
pub open spec fn other_steps(
    cmds: Seq<WgrCmd>,
    draws: Seq<WgrDraw3D>,
    meshes: Map<u64, Record>,
) -> Seq<Plan3dOp>
    decreases cmds.len(),
{
    if cmds.len() == 0 {
        Seq::empty()
    } else {
        let before = other_steps(cmds.drop_last(), draws, meshes);
        match step_of(cmds.last(), draws, meshes) {
            PlanStep::Other(op) => before.push(op),
            _ => before,
        }
    }
}

proof fn drawing_groups_adds_no_other_op(
    order: Seq<u32>,
    ops: Seq<Plan3dOp>,
    groups: Seq<Seq<u32>>,
)
    ensures
        other_ops(emit(order, ops, groups).1) == other_ops(ops),
    decreases groups.len(),
{
    if groups.len() > 0 {
        drawing_groups_adds_no_other_op(order, ops, groups.drop_last());
        let p = emit(order, ops, groups.drop_last()).1;
        assert(emit(order, ops, groups).1.drop_last() =~= p);
    }
}

/// Everything but draws of meshes stays, in the order it was asked for.
pub proof fn plan_keeps_other_steps(
    cmds: Seq<WgrCmd>,
    draws: Seq<WgrDraw3D>,
    meshes: Map<u64, Record>,
)
    ensures
        other_ops(frame_plan(cmds, draws, meshes).ops) == other_steps(cmds, draws, meshes),
        other_ops(planned(cmds, draws, meshes).ops) == other_steps(cmds, draws, meshes),
    decreases cmds.len(),
{
    let st = planned(cmds, draws, meshes);
    drawing_groups_adds_no_other_op(st.order, st.ops, bucketed(st.run));
    if cmds.len() > 0 {
        plan_keeps_other_steps(cmds.drop_last(), draws, meshes);
        let before = planned(cmds.drop_last(), draws, meshes);
        let f = flushed(before);
        match step_of(cmds.last(), draws, meshes) {
            PlanStep::Skip => {},
            PlanStep::Join(key, arg) => {},
            PlanStep::Alone(arg) => {
                assert(st.ops.drop_last() =~= f.ops);
            },
            PlanStep::Other(op) => {
                assert(st.ops.drop_last() =~= f.ops);
            },
        }
    }
}

/// The step with its slots moved up by `by`.
pub open spec fn shifted(op: Plan3dOp, by: int) -> Plan3dOp {
    match op {
        Plan3dOp::Draw3D { draw, base, count } => Plan3dOp::Draw3D {
            draw,
            base: (base + by) as u32,
            count,
        },
        op => op,
    }
}

/// The second plan carried out after the first.
pub open spec fn joined(first: PlanState, second: PlanState) -> PlanState {
    PlanState {
        order: first.order + second.order,
        ops: first.ops + second.ops.map_values(
            |op: Plan3dOp| shifted(op, first.order.len() as int),
        ),
        run: second.run,
    }
}

proof fn drawing_groups_after_a_plan(
    first: PlanState,
    order: Seq<u32>,
    ops: Seq<Plan3dOp>,
    groups: Seq<Seq<u32>>,
)
    requires
        first.order.len() + order.len() + flat(groups).len() <= u32::MAX,
    ensures
        ({
            let second = PlanState { order, ops, run: Seq::empty() };
            let (o, p) = emit(order, ops, groups);
            let both = joined(first, second);
            let all = joined(first, PlanState { order: o, ops: p, run: Seq::empty() });
            emit(both.order, both.ops, groups) == (all.order, all.ops)
        }),
        emit(order, ops, groups).0.len() == order.len() + flat(groups).len(),
    decreases groups.len(),
{
    let (o, p) = emit(order, ops, groups);
    let both = joined(first, PlanState { order, ops, run: Seq::empty() });
    let all = joined(first, PlanState { order: o, ops: p, run: Seq::empty() });
    if groups.len() > 0 {
        drawing_groups_after_a_plan(first, order, ops, groups.drop_last());
        let (o1, p1) = emit(order, ops, groups.drop_last());
        let mid = joined(first, PlanState { order: o1, ops: p1, run: Seq::empty() });
        let group = groups.last();
        assert(emit(both.order, both.ops, groups).0 =~= all.order);
        let op = Plan3dOp::Draw3D {
            draw: group[0],
            base: o1.len() as u32,
            count: group.len() as u32,
        };
        assert(p == p1.push(op));
        assert(mid.order.len() == first.order.len() + o1.len());
        assert(all.ops =~= mid.ops.push(shifted(op, first.order.len() as int)));
    }
}

proof fn flushing_after_a_plan(first: PlanState, second: PlanState)
    requires
        first.order.len() + second.order.len() + second.run.len() <= u32::MAX,
    ensures
        flushed(joined(first, second)) == joined(first, flushed(second)),
        flushed(second).order.len() == second.order.len() + second.run.len(),
{
    buckets_hold_the_items(second.run);
    drawing_groups_after_a_plan(first, second.order, second.ops, bucketed(second.run));
}

proof fn stepping_after_a_plan(first: PlanState, second: PlanState, step: PlanStep)
    requires
        first.order.len() + second.order.len() + second.run.len() < u32::MAX,
        step matches PlanStep::Other(op) ==> !(op is Draw3D),
    ensures
        stepped(joined(first, second), step) == joined(first, stepped(second, step)),
{
    flushing_after_a_plan(first, second);
    let f = flushed(second);
    match step {
        PlanStep::Skip => {},
        PlanStep::Join(key, arg) => {},
        PlanStep::Alone(arg) => {
            let l = stepped(joined(first, second), step);
            let r = joined(first, stepped(second, step));
            assert(l.order =~= r.order);
            assert(l.ops =~= r.ops);
        },
        PlanStep::Other(op) => {
            let l = stepped(joined(first, second), step);
            let r = joined(first, stepped(second, step));
            assert(l.ops =~= r.ops);
        },
    }
}

proof fn planning_after_a_plan(
    first: Seq<WgrCmd>,
    second: Seq<WgrCmd>,
    draws: Seq<WgrDraw3D>,
    meshes: Map<u64, Record>,
)
    requires
        planned(first, draws, meshes).run.len() == 0,
        first.len() + second.len() <= u32::MAX,
    ensures
        planned(first + second, draws, meshes) == joined(
            planned(first, draws, meshes),
            planned(second, draws, meshes),
        ),
    decreases second.len(),
{
    let (a, b) = (planned(first, draws, meshes), planned(second, draws, meshes));
    if second.len() == 0 {
        assert(first + second =~= first);
        assert(joined(a, b).order =~= a.order);
        assert(joined(a, b).ops =~= a.ops);
        assert(joined(a, b).run =~= a.run);
    } else {
        let shorter = second.drop_last();
        planning_after_a_plan(first, shorter, draws, meshes);
        assert((first + second).drop_last() =~= first + shorter);
        planning_is_sound(first, draws, meshes);
        planning_is_sound(shorter, draws, meshes);
        stepping_after_a_plan(
            a,
            planned(shorter, draws, meshes),
            step_of(second.last(), draws, meshes),
        );
    }
}

/// The command ends a run: nothing is reordered across it.
pub open spec fn is_barrier(cmd: WgrCmd, draws: Seq<WgrDraw3D>, meshes: Map<u64, Record>) -> bool {
    match step_of(cmd, draws, meshes) {
        PlanStep::Skip => false,
        PlanStep::Join(key, arg) => false,
        _ => true,
    }
}

/// A command that ends a run splits the plan: what was asked for before it is planned before
/// it, its own step comes next, and what was asked for after it is planned after it.
pub proof fn a_barrier_splits_the_plan(
    before: Seq<WgrCmd>,
    barrier: WgrCmd,
    after: Seq<WgrCmd>,
    draws: Seq<WgrDraw3D>,
    meshes: Map<u64, Record>,
)
    requires
        is_barrier(barrier, draws, meshes),
        before.len() + 1 + after.len() <= u32::MAX,
    ensures
        ({
            let head = frame_plan(before, draws, meshes);
            let upto = frame_plan(before.push(barrier), draws, meshes);
            let tail = frame_plan(after, draws, meshes);
            let whole = frame_plan(before.push(barrier) + after, draws, meshes);
            &&& whole == joined(upto, tail)
            &&& match step_of(barrier, draws, meshes) {
                PlanStep::Alone(arg) => {
                    &&& upto.order == head.order.push(arg)
                    &&& upto.ops == head.ops.push(
                        Plan3dOp::Draw3D { draw: arg, base: head.order.len() as u32, count: 1 },
                    )
                },
                PlanStep::Other(op) => upto.order == head.order && upto.ops == head.ops.push(op),
                _ => false,
            }
        }),
{
    let first = before.push(barrier);
    assert(first.drop_last() =~= before);
    let st = planned(first, draws, meshes);
    assert(st.run.len() == 0);
    planning_after_a_plan(first, after, draws, meshes);
    planning_is_sound(first, draws, meshes);
    planning_is_sound(after, draws, meshes);
    flushing_after_a_plan(st, planned(after, draws, meshes));
    assert(bucketed(st.run) =~= Seq::empty());
    assert(flushed(st).run =~= st.run);
}

/// The draws of `cmds` that may be reordered, with what they share, in the order asked for.
pub open spec fn reorderable(
    cmds: Seq<WgrCmd>,
    draws: Seq<WgrDraw3D>,
    meshes: Map<u64, Record>,
) -> Seq<(GroupKey, u32)>
    decreases cmds.len(),
{
    if cmds.len() == 0 {
        Seq::empty()
    } else {
        let before = reorderable(cmds.drop_last(), draws, meshes);
        match step_of(cmds.last(), draws, meshes) {
            PlanStep::Join(key, arg) => before.push((key, arg)),
            _ => before,
        }
    }
}

/// The step is an instanced draw of what may be reordered.
pub open spec fn is_coalesced(
    op: Plan3dOp,
    draws: Seq<WgrDraw3D>,
    meshes: Map<u64, Record>,
) -> bool {
    op matches Plan3dOp::Draw3D { draw, .. } && draw < draws.len() && is_instanceable(
        &draws[draw as int],
        meshes,
    )
}

/// What the slots of an instanced draw share.
pub open spec fn drawn_key(op: Plan3dOp, draws: Seq<WgrDraw3D>) -> GroupKey {
    group_key(&draws[op->draw as int])
}

proof fn drawing_groups_lists_them(order: Seq<u32>, ops: Seq<Plan3dOp>, groups: Seq<Seq<u32>>)
    ensures
        emit(order, ops, groups).1.len() == ops.len() + groups.len(),
        ops.is_prefix_of(emit(order, ops, groups).1),
        forall|i: int|
            ops.len() <= i < ops.len() + groups.len() ==> {
                let op = #[trigger] emit(order, ops, groups).1[i];
                op is Draw3D && op->draw == groups[i - ops.len()][0]
            },
    decreases groups.len(),
{
    if groups.len() > 0 {
        let before = groups.drop_last();
        drawing_groups_lists_them(order, ops, before);
        let (p, all) = (emit(order, ops, before).1, emit(order, ops, groups).1);
        assert(all.drop_last() =~= p);
        assert forall|i: int| ops.len() <= i < ops.len() + groups.len() implies {
            let op = #[trigger] all[i];
            op is Draw3D && op->draw == groups[i - ops.len()][0]
        } by {
            if i < p.len() {
                assert(all[i] == p[i]);
                assert(before[i - ops.len()] == groups[i - ops.len()]);
            }
        }
    }
}

proof fn draws_of_a_run(
    order: Seq<u32>,
    ops: Seq<Plan3dOp>,
    run: Seq<(GroupKey, u32)>,
    draws: Seq<WgrDraw3D>,
    meshes: Map<u64, Record>,
)
    requires
        run_agrees(run, draws, meshes),
    ensures
        ({
            let all = emit(order, ops, bucketed(run)).1;
            &&& all.len() == ops.len() + first_seen(run).len()
            &&& ops.is_prefix_of(all)
            &&& forall|i: int|
                ops.len() <= i < all.len() ==> {
                    let op = #[trigger] all[i];
                    let key = first_seen(run)[i - ops.len()];
                    &&& is_coalesced(op, draws, meshes)
                    &&& drawn_key(op, draws) == key
                    &&& 0 <= first_place(run, key) < run.len()
                    &&& run[first_place(run, key)] == (key, op->draw)
                }
        }),
{
    let groups = bucketed(run);
    let all = emit(order, ops, groups).1;
    drawing_groups_lists_them(order, ops, groups);
    buckets_come_in_order(run);
    assert forall|i: int| ops.len() <= i < all.len() implies {
        let op = #[trigger] all[i];
        let key = first_seen(run)[i - ops.len()];
        &&& is_coalesced(op, draws, meshes)
        &&& drawn_key(op, draws) == key
        &&& 0 <= first_place(run, key) < run.len()
        &&& run[first_place(run, key)] == (key, op->draw)
    } by {
        let key = first_seen(run)[i - ops.len()];
        let first = run[first_place(run, key)];
        assert(first == (key, groups[i - ops.len()][0]));
        assert(all[i]->draw == groups[i - ops.len()][0]);
    }
}

/// Where nothing ends a run, everything waits in it.
pub proof fn a_stretch_stays_open(
    cmds: Seq<WgrCmd>,
    draws: Seq<WgrDraw3D>,
    meshes: Map<u64, Record>,
)
    requires
        forall|i: int| 0 <= i < cmds.len() ==> !is_barrier(#[trigger] cmds[i], draws, meshes),
    ensures
        ({
            let st = planned(cmds, draws, meshes);
            st.order.len() == 0 && st.ops.len() == 0 && st.run == reorderable(cmds, draws, meshes)
        }),
    decreases cmds.len(),
{
    if cmds.len() > 0 {
        let before = cmds.drop_last();
        assert forall|i: int| 0 <= i < before.len() implies !is_barrier(
            #[trigger] before[i],
            draws,
            meshes,
        ) by {
            assert(before[i] == cmds[i]);
        }
        a_stretch_stays_open(before, draws, meshes);
        assert(!is_barrier(cmds[cmds.len() - 1], draws, meshes));
    }
}

/// Where nothing ends a run, everything that shares all it can share is one instanced draw: no two
/// draws of the plan share it, and they come in the order in which it was first asked for, each
/// made of the draw that was the first to ask.
pub proof fn a_stretch_is_coalesced(
    cmds: Seq<WgrCmd>,
    draws: Seq<WgrDraw3D>,
    meshes: Map<u64, Record>,
)
    requires
        cmds.len() <= u32::MAX,
        forall|i: int| 0 <= i < cmds.len() ==> !is_barrier(#[trigger] cmds[i], draws, meshes),
    ensures
        ({
            let ops = frame_plan(cmds, draws, meshes).ops;
            let asked = reorderable(cmds, draws, meshes);
            &&& forall|i: int|
                0 <= i < ops.len() ==> {
                    let op = #[trigger] ops[i];
                    let place = first_place(asked, drawn_key(op, draws));
                    &&& is_coalesced(op, draws, meshes)
                    &&& 0 <= place < asked.len()
                    &&& asked[place] == (drawn_key(op, draws), op->draw)
                }
            &&& forall|i: int, j: int|
                #![trigger ops[i], ops[j]]
                0 <= i < j < ops.len() ==> {
                    &&& drawn_key(ops[i], draws) != drawn_key(ops[j], draws)
                    &&& first_place(asked, drawn_key(ops[i], draws)) < first_place(
                        asked,
                        drawn_key(ops[j], draws),
                    )
                }
            &&& forall|k: int|
                0 <= k < asked.len() ==> exists|i: int|
                    0 <= i < ops.len() && drawn_key(#[trigger] ops[i], draws) == (
                    #[trigger] asked[k]).0
        }),
{
    let st = planned(cmds, draws, meshes);
    let asked = reorderable(cmds, draws, meshes);
    let keys = first_seen(asked);
    planning_is_sound(cmds, draws, meshes);
    a_stretch_stays_open(cmds, draws, meshes);
    draws_of_a_run(st.order, st.ops, asked, draws, meshes);
    buckets_come_in_order(asked);
    first_seen_lists_each_key_once(asked);
    let ops = frame_plan(cmds, draws, meshes).ops;
    assert forall|i: int| 0 <= i < ops.len() implies {
        let op = #[trigger] ops[i];
        let place = first_place(asked, drawn_key(op, draws));
        &&& is_coalesced(op, draws, meshes)
        &&& 0 <= place < asked.len()
        &&& asked[place] == (drawn_key(op, draws), op->draw)
    } by {
        assert(keys[i] == drawn_key(ops[i], draws));
    }
    assert forall|i: int, j: int| #![trigger ops[i], ops[j]] 0 <= i < j < ops.len() implies {
        &&& drawn_key(ops[i], draws) != drawn_key(ops[j], draws)
        &&& first_place(asked, drawn_key(ops[i], draws)) < first_place(
            asked,
            drawn_key(ops[j], draws),
        )
    } by {
        assert(keys[i] == drawn_key(ops[i], draws));
        assert(keys[j] == drawn_key(ops[j], draws));
    }
    assert forall|k: int| 0 <= k < asked.len() implies exists|i: int|
        0 <= i < ops.len() && drawn_key(#[trigger] ops[i], draws) == (#[trigger] asked[k]).0 by {
        assert(keys.contains(asked[k].0));
        let i = choose|i: int| 0 <= i < keys.len() && keys[i] == asked[k].0;
        assert(drawn_key(ops[i], draws) == keys[i]);
    }
}

/// Something that may not be reordered stands between every two draws that share all they can
/// share.
pub open spec fn equals_are_parted(
    ops: Seq<Plan3dOp>,
    draws: Seq<WgrDraw3D>,
    meshes: Map<u64, Record>,
) -> bool {
    forall|i: int, j: int|
        #![trigger ops[i], ops[j]]
        0 <= i < j < ops.len() && is_coalesced(ops[i], draws, meshes) && is_coalesced(
            ops[j],
            draws,
            meshes,
        ) && drawn_key(ops[i], draws) == drawn_key(ops[j], draws) ==> exists|k: int|
            i < k < j && !is_coalesced(#[trigger] ops[k], draws, meshes)
}

proof fn flushing_parts_equals(st: PlanState, draws: Seq<WgrDraw3D>, meshes: Map<u64, Record>)
    requires
        run_agrees(st.run, draws, meshes),
        equals_are_parted(st.ops, draws, meshes),
        st.ops.len() > 0 ==> !is_coalesced(st.ops.last(), draws, meshes),
    ensures
        equals_are_parted(flushed(st).ops, draws, meshes),
{
    let (ops, all) = (st.ops, flushed(st).ops);
    let keys = first_seen(st.run);
    draws_of_a_run(st.order, ops, st.run, draws, meshes);
    first_seen_lists_each_key_once(st.run);
    assert forall|i: int, j: int|
        #![trigger all[i], all[j]]
        0 <= i < j < all.len() && is_coalesced(all[i], draws, meshes) && is_coalesced(
            all[j],
            draws,
            meshes,
        ) && drawn_key(all[i], draws) == drawn_key(all[j], draws) implies exists|k: int|
        i < k < j && !is_coalesced(#[trigger] all[k], draws, meshes) by {
        let n = ops.len() as int;
        if j < n {
            assert(ops[i] == all[i] && ops[j] == all[j]);
            let k = choose|k: int| i < k < j && !is_coalesced(#[trigger] ops[k], draws, meshes);
            assert(all[k] == ops[k]);
        } else if i < n {
            assert(all[n - 1] == ops[n - 1]);
        } else {
            assert(keys[i - n] == drawn_key(all[i], draws));
            assert(keys[j - n] == drawn_key(all[j], draws));
        }
    }
}

proof fn planning_parts_equals(cmds: Seq<WgrCmd>, draws: Seq<WgrDraw3D>, meshes: Map<u64, Record>)
    requires
        cmds.len() <= u32::MAX,
    ensures
        ({
            let st = planned(cmds, draws, meshes);
            &&& equals_are_parted(st.ops, draws, meshes)
            &&& st.ops.len() > 0 ==> !is_coalesced(st.ops.last(), draws, meshes)
        }),
    decreases cmds.len(),
{
    if cmds.len() > 0 {
        let before = cmds.drop_last();
        planning_parts_equals(before, draws, meshes);
        planning_is_sound(before, draws, meshes);
        let st = planned(before, draws, meshes);
        flushing_parts_equals(st, draws, meshes);
        let (f, now) = (flushed(st).ops, planned(cmds, draws, meshes).ops);
        if is_barrier(cmds.last(), draws, meshes) {
            assert(now.drop_last() =~= f);
            assert(!is_coalesced(now.last(), draws, meshes));
            assert forall|i: int, j: int|
                #![trigger now[i], now[j]]
                0 <= i < j < now.len() && is_coalesced(now[i], draws, meshes) && is_coalesced(
                    now[j],
                    draws,
                    meshes,
                ) && drawn_key(now[i], draws) == drawn_key(now[j], draws) implies exists|k: int|
                i < k < j && !is_coalesced(#[trigger] now[k], draws, meshes) by {
                assert(f[i] == now[i] && f[j] == now[j]);
                let k = choose|k: int| i < k < j && !is_coalesced(#[trigger] f[k], draws, meshes);
                assert(now[k] == f[k]);
            }
        }
    }
}

/// A plan has no more instanced draws than it needs: two that share all they can share are apart
/// only because something that may not be reordered stands between them.
pub proof fn a_plan_is_coalesced(
    cmds: Seq<WgrCmd>,
    draws: Seq<WgrDraw3D>,
    meshes: Map<u64, Record>,
)
    requires
        cmds.len() <= u32::MAX,
    ensures
        equals_are_parted(frame_plan(cmds, draws, meshes).ops, draws, meshes),
{
    planning_parts_equals(cmds, draws, meshes);
    planning_is_sound(cmds, draws, meshes);
    flushing_parts_equals(planned(cmds, draws, meshes), draws, meshes);
}

} // verus!
