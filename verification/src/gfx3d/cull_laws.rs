use crate::desc::{BindingKind, DepthCompare, Resource};
use crate::gfx3d::cull::{
    cull_group, cull_layout, nearer_hides, table_bytes, tables_after, widened, zeroed_params,
    CullInputs, CullState, InstanceGpu, LodGpu, CULL_GROUP,
};
use crate::math::{
    ceil_div, least_power_of_two_bounds, quotients_are_rounded_up, POWER_OF_TWO_LIMIT,
};
use vstd::prelude::*;

verus! {

// What the retained scene keeps and uploads, said of what it was told.

/// A level of detail is registered as it is, but for where its sections begin: behind all sections
/// that were there before.
pub proof fn levels_are_kept(lods: Seq<LodGpu>, offset: int, l: int)
    requires
        0 <= l < lods.len(),
        0 <= offset,
        lods[l].section_base + offset <= u32::MAX,
    ensures
        ({
            let moved = CullState::moved_lods(lods, offset);
            &&& moved.len() == lods.len()
            &&& moved[l].section_base == lods[l].section_base + offset
            &&& moved[l].section_count == lods[l].section_count
            &&& moved[l].resolution == lods[l].resolution
            &&& moved[l].is_decal == lods[l].is_decal
        }),
{
}

/// An instance that comes is in the slot that was freed last, or in a new one behind all others if
/// none is free. Every other slot holds what it held.
pub proof fn an_instance_comes(before: CullState, after: CullState, inst: InstanceGpu, other: int)
    requires
        before.wf(),
        before.tidy(),
        before.can_add(),
        after.adds(&before, inst),
        before.static_instances@.len() < u32::MAX,
    ensures
        ({
            let (was, is) = (before.static_instances@, after.static_instances@);
            let free = before.free_slots@;
            let slot = before.next_slot() as int;
            &&& free.len() > 0 ==> slot == free[free.len() - 1] && is.len() == was.len()
                && after.free_slots@.len() == free.len() - 1
            &&& free.len() == 0 ==> slot == was.len() && is.len() == was.len() + 1
                && after.free_slots@.len() == 0
            &&& is[slot] == inst
            &&& 0 <= other < was.len() && other != slot ==> is[other] == was[other]
            &&& 0 <= other < after.free_slots@.len() ==> after.free_slots@[other] == free[other]
        }),
{
    if before.free_slots@.len() > 0 {
        assert(before.free_slots@[before.free_slots@.len() - 1] < before.static_instances@.len());
    }
}

/// An instance that goes leaves its slot, and only its slot, without a model; and the slot is the
/// next to be used.
pub proof fn an_instance_goes(before: CullState, after: CullState, slot: u32, other: int)
    requires
        before.wf(),
        slot < before.static_instances@.len(),
        after.removes(&before, slot),
    ensures
        ({
            let (was, is) = (before.static_instances@, after.static_instances@);
            &&& is.len() == was.len()
            &&& is[slot as int].model == 0xffff_ffff
            &&& is[slot as int].world == was[slot as int].world
            &&& is[slot as int].center == was[slot as int].center
            &&& is[slot as int].flags == was[slot as int].flags
            &&& is[slot as int].surface_y == was[slot as int].surface_y
            &&& 0 <= other < was.len() && other != slot ==> is[other] == was[other]
            &&& after.free_slots@.len() == before.free_slots@.len() + 1
            &&& after.next_slot() == slot
            &&& after.can_add()
            &&& 0 <= other < before.free_slots@.len() ==> after.free_slots@[other]
                == before.free_slots@[other]
        }),
{
}

/// What goes and comes again is as it was: the instance is back in its slot, and the same slots are
/// free.
pub proof fn going_and_coming_is_nothing(
    before: CullState,
    between: CullState,
    after: CullState,
    slot: u32,
)
    requires
        before.wf(),
        slot < before.static_instances@.len(),
        between.removes(&before, slot),
        after.adds(&between, before.static_instances@[slot as int]),
    ensures
        after.static_instances@ == before.static_instances@,
        after.free_slots@ == before.free_slots@,
{
    assert(after.free_slots@ =~= before.free_slots@);
    assert(after.static_instances@ =~= before.static_instances@);
}

/// A slot that changes is among those to be uploaded, with all that were before; and no end of the
/// range is one that did not change.
pub proof fn changes_are_kept_track_of(dirty: Option<(u32, u32)>, slot: u32)
    ensures
        ({
            let (lo, hi) = widened(dirty, slot);
            &&& lo <= slot <= hi
            &&& dirty matches Some((l, h)) ==> lo <= l && h <= hi && (lo == l || lo == slot) && (hi
                == h || hi == slot)
            &&& dirty is None ==> lo == slot && hi == slot
        }),
{
}

/// An upload writes all slots if the device's buffer is new or there are more slots than before,
/// the slots that changed if there are as many, and nothing if none changed. It never writes past
/// the last.
pub proof fn no_slot_is_written_in_vain(state: CullState, anew: bool)
    requires
        state.wf(),
        state.static_instances@.len() <= u32::MAX,
    ensures
        ({
            let len = state.static_instances@.len();
            let same = !anew && state.uploaded_static_len == len;
            let w = state.slots_to_write(anew);
            &&& w matches Some((first, count)) ==> count > 0 && first + count <= len
            &&& len > 0 && !same ==> w == Some((0u32, len as u32))
            &&& same && state.static_dirty is None ==> w is None
            &&& same ==> (state.static_dirty matches Some((lo, hi)) ==> (w matches Some((
                first,
                count,
            )) && first == lo && first + count == hi + 1))
            &&& len == 0 ==> w is None
        }),
{
}

/// After an upload every table that changed has room on the device. What had room is kept, and what
/// is made anew has some to spare.
pub proof fn tables_have_room(before: CullState, after: CullState)
    requires
        before.countable(),
        tables_after(&before, &after),
    ensures
        before.tables_dirty ==> {
            &&& after.model_buf.exists && after.model_buf.cap >= 16 * before.models@.len()
            &&& after.lod_buf.exists && after.lod_buf.cap >= 16 * before.lods@.len()
            &&& after.section_buf.exists && after.section_buf.cap >= 16 * before.sections@.len()
            &&& after.section_mat_buf.exists && after.section_mat_buf.cap >= 80
                * before.section_materials@.len()
        },
        before.model_buf.exists && before.model_buf.cap > 0 && before.model_buf.cap >= 16
            * before.models@.len() ==> after.model_buf == before.model_buf,
        before.lod_buf.exists && before.lod_buf.cap > 0 && before.lod_buf.cap >= 16
            * before.lods@.len() ==> after.lod_buf == before.lod_buf,
        before.section_buf.exists && before.section_buf.cap > 0 && before.section_buf.cap >= 16
            * before.sections@.len() ==> after.section_buf == before.section_buf,
        before.section_mat_buf.exists && before.section_mat_buf.cap > 0
            && before.section_mat_buf.cap >= 80 * before.section_materials@.len()
            ==> after.section_mat_buf == before.section_mat_buf,
        after.model_buf != before.model_buf ==> after.model_buf.cap >= 4096,
        after.lod_buf != before.lod_buf ==> after.lod_buf.cap >= 4096,
        after.section_buf != before.section_buf ==> after.section_buf.cap >= 4096,
        after.section_mat_buf != before.section_mat_buf ==> after.section_mat_buf.cap >= 4096,
        !before.tables_dirty ==> after.model_buf == before.model_buf && after.lod_buf
            == before.lod_buf && after.section_buf == before.section_buf && after.section_mat_buf
            == before.section_mat_buf,
{
    let (a, b) = (before.models@.len() as int, before.lods@.len() as int);
    let (c, d) = (before.sections@.len() as int, before.section_materials@.len() as int);
    assert(POWER_OF_TWO_LIMIT >= 1);
    least_power_of_two_bounds(table_bytes(a, 16));
    least_power_of_two_bounds(table_bytes(b, 16));
    least_power_of_two_bounds(table_bytes(c, 16));
    least_power_of_two_bounds(table_bytes(d, 80));
}

/// Everything that the culling reads and writes is there if and only if the instances, the models,
/// their levels and sections, and room for arguments are.
pub proof fn nothing_is_culled_halfway(state: CullState)
    ensures
        state.complete() <==> (state.instance_buf.exists && state.model_buf.exists
            && state.lod_buf.exists && state.section_buf.exists && state.out_args_cap != 0),
        state.total() == state.static_instances@.len() + state.dynamic@.len(),
        state.wf() ==> state.args_bytes() == 2 * 65536 * 20,
        state.instances_fit() <==> state.instance_buf.exists && state.instance_buf.cap >= 96
            && state.instance_buf.cap >= 96 * (state.static_instances@.len()
            + state.dynamic@.len()),
{
}

/// Every instance is looked at by a thread of its own, sixty-four to a group, and no group looks at
/// none.
pub proof fn every_instance_is_looked_at(instances: u32)
    requires
        instances > 0,
    ensures
        instances <= 64 * ceil_div(instances as int, CULL_GROUP as int) < instances + 64,
{
    quotients_are_rounded_up(instances as int, 64);
}

/// The culling reads its parameters and four tables, and writes the arguments, the counters and the
/// records; each at the binding of its own number, and in compute shaders only.
pub proof fn the_culling_writes_what_it_makes(b: int)
    requires
        0 <= b < cull_layout().len(),
    ensures
        cull_layout().len() == 8,
        cull_layout()[b].binding == b,
        cull_layout()[b].count == 0,
        cull_layout()[b].stages.compute,
        !cull_layout()[b].stages.vertex,
        !cull_layout()[b].stages.fragment,
        cull_layout()[b].kind is Uniform <==> b == 0,
        b > 0 ==> (cull_layout()[b].kind matches BindingKind::Storage { read_only, .. } && (
        read_only <==> b < 5)),
        nearer_hides().write,
        nearer_hides().compare == DepthCompare::GreaterEqual,
{
}

/// Unless the engine says otherwise, nothing is too small to be shown and nothing loses detail.
pub proof fn everything_is_shown_at_first()
    ensures
        CullInputs::spec_default().pixel_limit == 0,
        CullInputs::spec_default().lod_inv_width == 0,
        CullInputs::spec_default().lod_scale == 0x3f80_0000,
        CullInputs::spec_default().objects_z == 0x4461_0000,
{
}

/// What changes instances changes nothing else.
pub proof fn nothing_but_instances_changes(a: CullState, b: CullState)
    ensures
        a.same_but_instances(&b) <==> {
            &&& a.models == b.models
            &&& a.lods == b.lods
            &&& a.sections == b.sections
            &&& a.section_materials == b.section_materials
            &&& a.tables_dirty == b.tables_dirty
            &&& a.uploaded_static_len == b.uploaded_static_len
            &&& a.params == b.params
            &&& a.same_buffers(&b)
        },
        a.same_buffers(&b) <==> {
            &&& a.model_buf == b.model_buf
            &&& a.lod_buf == b.lod_buf
            &&& a.section_buf == b.section_buf
            &&& a.section_mat_buf == b.section_mat_buf
            &&& a.instance_buf == b.instance_buf
            &&& a.out_args_cap == b.out_args_cap
            &&& a.variant_capacity == b.variant_capacity
            &&& a.bound == b.bound
        },
{
}

/// The parameters and the counters are the culling's own; the tables that it reads, and the
/// arguments and records that it writes, grow with the scene and are lent.
pub proof fn tables_are_lent(b: int)
    requires
        0 <= b < cull_group().len(),
    ensures
        cull_group().len() == 8,
        cull_group()[b].binding == b,
        cull_group()[b].resource == Resource::Buffer(0) <==> b == 0,
        cull_group()[b].resource == Resource::Buffer(1) <==> b == 6,
        cull_group()[b].resource == Resource::Lent <==> b != 0 && b != 6,
{
}

/// Before anything is known of a frame, nothing is looked at.
pub proof fn nothing_is_known_at_first(k: int, l: int)
    requires
        0 <= k < 6,
        0 <= l < 4,
    ensures
        ({
            let p = zeroed_params();
            &&& p.instance_count == 0
            &&& p.variant_capacity == 0
            &&& p.variant_count == 0
            &&& p.objects_z2 == 0
            &&& p.lod_scale == 0
            &&& p.lod_inv_width == 0
            &&& p.pixel_limit == 0
            &&& p.cam_pos@[l] == 0
            &&& p.frustum@[k]@[l] == 0
        }),
{
}

} // verus!
