use crate::buckets::{bucketed, buckets_hold_the_items, flat, flat_grows, Buckets};
use crate::ffi::{WgrBlend, WgrCmd, WgrCmdKind, WgrDepthMode, WgrDraw3D, NO_PALETTE};
use crate::gfx3d::mesh::{find_mesh, mesh_at, moves_with_bones, offset_of, Offset, PipelineKey};
use crate::index::GroupKey;
use crate::slots::{HandleTable, Record};
use vstd::prelude::*;

verus! {

/// One step of a frame's plan.
#[derive(Clone, Copy, Debug, PartialEq, Eq, Structural)]
pub enum Plan3dOp {
    ClearDepth,
    /// A two-dimensional batch.
    Draw2D(u32),
    /// A terrain batch.
    Terrain(u32),
    /// A water batch.
    Water(u32),
    /// Draw `draw` once for each of the slots `base .. base + count`.
    Draw3D { draw: u32, base: u32, count: u32 },
    /// The scene is complete; what follows is drawn over it on the screen.
    Resolve,
}

/// A frame's plan: the draw whose data fills each slot, and the steps in order.
pub struct Plan3d {
    pub order: Vec<u32>,
    pub ops: Vec<Plan3dOp>,
}

/// The draw shows anything: its section is not empty and lies inside a live mesh.
pub open spec fn is_drawn(d: &WgrDraw3D, meshes: Map<u64, Record>) -> bool {
    d.index_count != 0 && (mesh_at(meshes, d.mesh) matches Some(m) && d.index_end()
        <= m.index_count)
}

/// The draw may be reordered among its likes: plainly opaque, tested and written to the depth
/// buffer, without offset and without bones.
pub open spec fn is_instanceable(d: &WgrDraw3D, meshes: Map<u64, Record>) -> bool {
    &&& !moves_with_bones(d.palette_slot, mesh_at(meshes, d.mesh)->0)
    &&& d.blend == WgrBlend::Opaque
    &&& offset_of(d) == Offset::Plain
    &&& d.depth == WgrDepthMode::TestWrite
}

/// Everything that one instanced draw shares: mesh, section, texture, sampler, camera and the
/// cutout threshold (the rest of the pipeline is the same for all that may be reordered).
pub open spec fn group_key(d: &WgrDraw3D) -> GroupKey {
    (
        d.mesh,
        d.index_begin,
        d.index_count,
        d.texture_id,
        d.sampler.0,
        d.camera,
        d.alpha_ref,
    )
}

/// What a command does to the plan.
pub enum PlanStep {
    Skip,
    /// Add a draw to the current run.
    Join(GroupKey, u32),
    /// End the run and draw alone.
    Alone(u32),
    /// End the run and do something else.
    Other(Plan3dOp),
}

/// What `cmd` does to the plan.
pub open spec fn step_of(cmd: WgrCmd, draws: Seq<WgrDraw3D>, meshes: Map<u64, Record>) -> PlanStep {
    match WgrCmdKind::spec_from_code(cmd.kind) {
        None => PlanStep::Skip,
        Some(WgrCmdKind::Draw3D) => if cmd.arg >= draws.len() || !is_drawn(
            &draws[cmd.arg as int],
            meshes,
        ) {
            PlanStep::Skip
        } else if is_instanceable(&draws[cmd.arg as int], meshes) {
            PlanStep::Join(group_key(&draws[cmd.arg as int]), cmd.arg)
        } else {
            PlanStep::Alone(cmd.arg)
        },
        Some(WgrCmdKind::Draw2D) => PlanStep::Other(Plan3dOp::Draw2D(cmd.arg)),
        Some(WgrCmdKind::DrawTerrain) => PlanStep::Other(Plan3dOp::Terrain(cmd.arg)),
        Some(WgrCmdKind::DrawWater) => PlanStep::Other(Plan3dOp::Water(cmd.arg)),
        Some(WgrCmdKind::ClearDepth) => PlanStep::Other(Plan3dOp::ClearDepth),
        Some(WgrCmdKind::Resolve) => PlanStep::Other(Plan3dOp::Resolve),
    }
}

/// A plan under construction: slots and steps so far, and the run that is still open.
pub ghost struct PlanState {
    pub order: Seq<u32>,
    pub ops: Seq<Plan3dOp>,
    pub run: Seq<(GroupKey, u32)>,
}

/// The plan after drawing each of `groups` as one instanced draw over slots of its own.
pub open spec fn emit(order: Seq<u32>, ops: Seq<Plan3dOp>, groups: Seq<Seq<u32>>) -> (
    Seq<u32>,
    Seq<Plan3dOp>,
)
    decreases groups.len(),
{
    if groups.len() == 0 {
        (order, ops)
    } else {
        let (o, p) = emit(order, ops, groups.drop_last());
        let group = groups.last();
        (
            o + group,
            p.push(
                Plan3dOp::Draw3D {
                    draw: group[0],
                    base: o.len() as u32,
                    count: group.len() as u32,
                },
            ),
        )
    }
}

/// The plan with its open run drawn.
pub open spec fn flushed(st: PlanState) -> PlanState {
    let (order, ops) = emit(st.order, st.ops, bucketed(st.run));
    PlanState { order, ops, run: Seq::empty() }
}

/// The plan after one more step.
pub open spec fn stepped(st: PlanState, step: PlanStep) -> PlanState {
    match step {
        PlanStep::Skip => st,
        PlanStep::Join(key, arg) => PlanState { run: st.run.push((key, arg)), ..st },
        PlanStep::Alone(arg) => {
            let f = flushed(st);
            PlanState {
                order: f.order.push(arg),
                ops: f.ops.push(
                    Plan3dOp::Draw3D { draw: arg, base: f.order.len() as u32, count: 1 },
                ),
                run: f.run,
            }
        },
        PlanStep::Other(op) => {
            let f = flushed(st);
            PlanState { ops: f.ops.push(op), ..f }
        },
    }
}

/// The plan of `cmds`, its last run still open.
pub open spec fn planned(
    cmds: Seq<WgrCmd>,
    draws: Seq<WgrDraw3D>,
    meshes: Map<u64, Record>,
) -> PlanState
    decreases cmds.len(),
{
    if cmds.len() == 0 {
        PlanState { order: Seq::empty(), ops: Seq::empty(), run: Seq::empty() }
    } else {
        stepped(
            planned(cmds.drop_last(), draws, meshes),
            step_of(cmds.last(), draws, meshes),
        )
    }
}

/// The plan of `cmds`.
pub open spec fn frame_plan(
    cmds: Seq<WgrCmd>,
    draws: Seq<WgrDraw3D>,
    meshes: Map<u64, Record>,
) -> PlanState {
    flushed(planned(cmds, draws, meshes))
}

/// The end of every section that is looked at can be counted in 32 bits.
pub open spec fn sections_countable(
    cmds: Seq<WgrCmd>,
    draws: Seq<WgrDraw3D>,
    meshes: Map<u64, Record>,
) -> bool {
    forall|i: int|
        0 <= i < cmds.len() && WgrCmdKind::spec_from_code((#[trigger] cmds[i]).kind) == Some(
            WgrCmdKind::Draw3D,
        ) && cmds[i].arg < draws.len() ==> {
            let d = draws[cmds[i].arg as int];
            d.index_count != 0 && mesh_at(meshes, d.mesh) is Some ==> d.index_end() <= u32::MAX
        }
}

fn flush_run(order: &mut Vec<u32>, ops: &mut Vec<Plan3dOp>, run: &mut Buckets)
    requires
        old(run).wf(),
        old(order)@.len() + old(run)@.len() <= u32::MAX,
    ensures
        final(run).wf(),
        final(run)@.len() == 0,
        (final(order)@, final(ops)@) == emit(old(order)@, old(ops)@, bucketed(old(run)@)),
        final(order)@.len() == old(order)@.len() + old(run)@.len(),
{
    let ghost items = run@;
    let ghost groups = bucketed(run@);
    let ghost order0 = order@;
    let ghost ops0 = ops@;
    let members: Vec<Vec<u32>> = run.take();
    proof {
        buckets_hold_the_items(items);
    }
    let mut i: usize = 0;
    while i < members.len()
        invariant
            i <= members@.len(),
            groups == bucketed(items),
            members@.len() == groups.len(),
            forall|j: int| 0 <= j < members@.len() ==> (#[trigger] members@[j])@ == groups[j],
            forall|j: int| 0 <= j < groups.len() ==> (#[trigger] groups[j]).len() > 0,
            flat(groups).len() == items.len(),
            order0.len() + items.len() <= u32::MAX,
            (order@, ops@) == emit(order0, ops0, groups.take(i as int)),
            order@.len() == order0.len() + flat(groups.take(i as int)).len(),
        decreases members@.len() - i,
    {
        proof {
            assert(groups.take(i + 1).drop_last() =~= groups.take(i as int));
            flat_grows(groups, i + 1);
        }
        let base: u32 = order.len() as u32;
        let group: &Vec<u32> = &members[i];
        let draw: u32 = group[0];
        let count: u32 = group.len() as u32;
        order.extend_from_slice(group.as_slice());
        assert(order@ =~= emit(order0, ops0, groups.take(i as int)).0 + groups[i as int]);
        ops.push(Plan3dOp::Draw3D { draw, base, count });
        i = i + 1;
    }
    assert(groups.take(groups.len() as int) =~= groups);
}

/// Plans a frame: runs of draws that may be reordered are coalesced into instanced draws, and
/// everything else keeps its place between them.
pub fn plan_3d(meshes: &HandleTable, cmds: &[WgrCmd], draws: &[WgrDraw3D]) -> (plan: Plan3d)
    requires
        cmds@.len() <= u32::MAX,
        sections_countable(cmds@, draws@, meshes@),
    ensures
        plan.order@ == frame_plan(cmds@, draws@, meshes@).order,
        plan.ops@ == frame_plan(cmds@, draws@, meshes@).ops,
{
    let mut order: Vec<u32> = Vec::new();
    let mut ops: Vec<Plan3dOp> = Vec::new();
    let mut run = Buckets::new();
    let mut i: usize = 0;
    proof {
        assert(run@ =~= Seq::empty());
        assert(order@ =~= Seq::empty());
        assert(ops@ =~= Seq::empty());
        assert(cmds@.take(0) =~= Seq::empty());
    }
    while i < cmds.len()
        invariant
            i <= cmds@.len() <= u32::MAX,
            sections_countable(cmds@, draws@, meshes@),
            run.wf(),
            order@.len() + run@.len() <= i,
            ({
                let st = planned(cmds@.take(i as int), draws@, meshes@);
                st.order == order@ && st.ops == ops@ && st.run == run@
            }),
        decreases cmds@.len() - i,
    {
        let cmd: WgrCmd = cmds[i];
        proof {
            assert(cmds@.take(i + 1).drop_last() =~= cmds@.take(i as int));
            assert(cmds@.take(i + 1).last() == cmd);
        }
        i = i + 1;
        match WgrCmdKind::from_code(cmd.kind) {
            None => {},
            Some(WgrCmdKind::Draw3D) => {
                if (cmd.arg as usize) < draws.len() {
                    let d: &WgrDraw3D = &draws[cmd.arg as usize];
                    if d.index_count != 0 {
                        if let Some(m) = find_mesh(meshes, d.mesh) {
                            assert(cmds@[i - 1] == cmd);
                            if d.index_begin + d.index_count <= m.index_count {
                                let skinned: bool = d.palette_slot != NO_PALETTE && m.skinned;
                                let key = PipelineKey::from_draw(d, false);
                                if !skinned && d.blend == WgrBlend::Opaque && key.offset
                                    == Offset::Plain && d.depth == WgrDepthMode::TestWrite {
                                    run.push(
                                        (
                                            d.mesh,
                                            d.index_begin,
                                            d.index_count,
                                            d.texture_id,
                                            d.sampler.0,
                                            d.camera,
                                            d.alpha_ref,
                                        ),
                                        cmd.arg,
                                    );
                                } else {
                                    flush_run(&mut order, &mut ops, &mut run);
                                    let base: u32 = order.len() as u32;
                                    order.push(cmd.arg);
                                    ops.push(Plan3dOp::Draw3D { draw: cmd.arg, base, count: 1 });
                                    assert(run@ =~= Seq::empty());
                                }
                            }
                        }
                    }
                }
            },
            Some(WgrCmdKind::Draw2D) => {
                flush_run(&mut order, &mut ops, &mut run);
                ops.push(Plan3dOp::Draw2D(cmd.arg));
                assert(run@ =~= Seq::empty());
            },
            Some(WgrCmdKind::DrawTerrain) => {
                flush_run(&mut order, &mut ops, &mut run);
                ops.push(Plan3dOp::Terrain(cmd.arg));
                assert(run@ =~= Seq::empty());
            },
            Some(WgrCmdKind::DrawWater) => {
                flush_run(&mut order, &mut ops, &mut run);
                ops.push(Plan3dOp::Water(cmd.arg));
                assert(run@ =~= Seq::empty());
            },
            Some(WgrCmdKind::ClearDepth) => {
                flush_run(&mut order, &mut ops, &mut run);
                ops.push(Plan3dOp::ClearDepth);
                assert(run@ =~= Seq::empty());
            },
            Some(WgrCmdKind::Resolve) => {
                flush_run(&mut order, &mut ops, &mut run);
                ops.push(Plan3dOp::Resolve);
                assert(run@ =~= Seq::empty());
            },
        }
    }
    assert(cmds@.take(cmds@.len() as int) =~= cmds@);
    flush_run(&mut order, &mut ops, &mut run);
    Plan3d { order, ops }
}

} // verus!
