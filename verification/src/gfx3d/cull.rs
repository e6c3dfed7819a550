use crate::buffers::Growable;
use crate::desc::{
    bind, entry, spec_bind, spec_entry, spec_stages, stages, BindEntry, BindGroupDesc, BindingKind,
    BufferDesc, BufferUse, ColorTarget, DepthCompare, DepthDesc, LayoutEntry,
    RenderPipelineDesc, Resource, ResourcePlan,
};
use crate::ffi::{WgrMat4, WgrVec4};
use crate::gfx3d::scene::MIN_STORAGE;
use crate::math::{
    ceil_div, div_ceil_u32, larger, max_u32, max_u64, min_u32, smaller, POWER_OF_TWO_LIMIT,
};
use vstd::prelude::*;

verus! {

// The retained scene that the device culls by itself: models with their levels of detail and
// sections, and instances in slots that stay where they are.

/// What a frame's culling goes by.
#[derive(Clone, Copy, Debug)]
pub struct CullParamsGpu {
    /// Planes `(nx, ny, nz, d)`, inside where `n . p + d` is not negative.
    pub frustum: [WgrVec4; 6],
    pub cam_pos: WgrVec4,
    /// The square of the draw distance.
    pub objects_z2: u32,
    pub lod_scale: u32,
    pub lod_inv_width: u32,
    pub pixel_limit: u32,
    pub instance_count: u32,
    pub variant_capacity: u32,
    pub variant_count: u32,
}

/// One retained instance.
#[derive(Clone, Copy, Debug)]
pub struct InstanceGpu {
    /// From the model into the world.
    pub world: WgrMat4,
    /// The centre of the bounding sphere, and the scale.
    pub center: WgrVec4,
    pub model: u32,
    /// The lowest bit marks an instance that follows the ground.
    pub flags: u32,
    /// The ground's height below an instance that follows it.
    pub surface_y: u32,
}

/// A model: a range of levels of detail and a bounding radius.
#[derive(Clone, Copy, Debug, PartialEq, Eq, Structural)]
pub struct ModelGpu {
    pub lod_base: u32,
    pub lod_count: u32,
    pub bounding_sphere: u32,
}

/// A level of detail: a threshold and a range of sections.
#[derive(Clone, Copy, Debug, PartialEq, Eq, Structural)]
pub struct LodGpu {
    pub resolution: u32,
    pub section_base: u32,
    pub section_count: u32,
    pub is_decal: u32,
}

/// A section: a range of the shared indices, drawn by the pipeline of its variant.
#[derive(Clone, Copy, Debug, PartialEq, Eq, Structural)]
pub struct SectionGpu {
    pub first_index: u32,
    pub index_count: u32,
    pub base_vertex: u32,
    pub variant: u32,
}

/// What a draw shows: a section of an instance.
#[derive(Clone, Copy, Debug, PartialEq, Eq, Structural)]
pub struct RecordGpu {
    pub instance: u32,
    pub section: u32,
}

/// How a section looks.
#[derive(Clone, Copy, Debug)]
pub struct SectionMaterialGpu {
    pub emissive: WgrVec4,
    pub ambient: WgrVec4,
    pub diffuse: WgrVec4,
    /// The last lane is the specular power.
    pub specular: WgrVec4,
    pub texture_slot: u32,
    pub sampler: u32,
    pub alpha_ref: u32,
}

/// How many pipelines sections are sorted by.
pub const CULL_VARIANT_COUNT: u32 = 2;

/// Marks a slot without an instance.
pub const INVALID_MODEL: u32 = 0xffff_ffff;

/// How many slots can be numbered.
pub const MAX_SLOTS: u64 = 0x1_0000_0000;

/// How many draws a variant holds.
pub const DEFAULT_VARIANT_CAPACITY: u32 = 0x1_0000;

/// Bytes of the arguments of one indexed indirect draw.
pub const INDIRECT_ARG_SIZE: u64 = 20;

/// Bytes of `CullParamsGpu`, `InstanceGpu`, `ModelGpu`, `LodGpu`, `SectionGpu`,
/// `SectionMaterialGpu` and `RecordGpu` on the device.
pub const PARAMS_SIZE: u64 = 144;

pub const INSTANCE_SIZE: u64 = 96;

pub const MODEL_SIZE: u64 = 16;

pub const LOD_SIZE: u64 = 16;

pub const SECTION_SIZE: u64 = 16;

pub const SECTION_MATERIAL_SIZE: u64 = 80;

pub const RECORD_SIZE: u64 = 8;

/// Instances that one workgroup looks at.
pub const CULL_GROUP: u32 = 64;

fn append_copies<T: Copy>(v: &mut Vec<T>, items: &[T])
    ensures
        final(v)@ == old(v)@ + items@,
{
    let ghost before = v@;
    let mut i: usize = 0;
    while i < items.len()
        invariant
            i <= items@.len(),
            v@ == before + items@.take(i as int),
        decreases items@.len() - i,
    {
        v.push(items[i]);
        proof {
            assert(items@.take(i as int).push(items@[i as int]) =~= items@.take(i + 1));
        }
        i = i + 1;
    }
    proof {
        assert(items@.take(i as int) =~= items@);
    }
}

fn same_sections(a: &Vec<SectionGpu>, b: &[SectionGpu]) -> (same: bool)
    ensures
        same == (a@ == b@),
{
    if a.len() != b.len() {
        return false;
    }
    let mut i: usize = 0;
    while i < a.len()
        invariant
            i <= a@.len(),
            a@.len() == b@.len(),
            forall|k: int| 0 <= k < i ==> a@[k] == b@[k],
        decreases a@.len() - i,
    {
        if a[i] != b[i] {
            return false;
        }
        i = i + 1;
    }
    proof {
        assert(a@ =~= b@);
    }
    true
}

/// The bytes that a table of `count` entries is given; never none.
pub open spec fn table_bytes(count: int, size: int) -> int {
    larger(count * size, 1)
}

fn grow_table(buf: &mut Growable, count: usize, size: u64) -> (grew: bool)
    requires
        count * size <= POWER_OF_TWO_LIMIT,
    ensures
        *final(buf) == old(buf).after(table_bytes(count as int, size as int), MIN_STORAGE as int),
        grew == !old(buf).fits(table_bytes(count as int, size as int)),
        final(buf).exists,
{
    let bytes: u64 = max_u64(count as u64 * size, 1);
    buf.ensure(bytes, MIN_STORAGE)
}

/// The slots `lo..=hi` with `slot` among them.
pub open spec fn widened(dirty: Option<(u32, u32)>, slot: u32) -> (u32, u32) {
    match dirty {
        Some((lo, hi)) => (
            smaller(lo as int, slot as int) as u32,
            larger(hi as int, slot as int) as u32,
        ),
        None => (slot, slot),
    }
}

/// The retained scene.
pub struct CullState {
    pub models: Vec<ModelGpu>,
    pub lods: Vec<LodGpu>,
    pub sections: Vec<SectionGpu>,
    /// How the sections look, in the same order.
    pub section_materials: Vec<SectionMaterialGpu>,
    /// The tables have changed since they were uploaded.
    pub tables_dirty: bool,
    pub static_instances: Vec<InstanceGpu>,
    /// Slots to be used again, the last first.
    pub free_slots: Vec<u32>,
    /// The first and last slot that changed since the upload.
    pub static_dirty: Option<(u32, u32)>,
    /// Instances of this frame only.
    pub dynamic: Vec<InstanceGpu>,
    pub uploaded_static_len: u32,
    pub model_buf: Growable,
    pub lod_buf: Growable,
    pub section_buf: Growable,
    pub section_mat_buf: Growable,
    pub instance_buf: Growable,
    /// Bytes of the draw arguments that the device writes; none yet if zero.
    pub out_args_cap: u64,
    pub variant_capacity: u32,
    pub params: CullParamsGpu,
    pub bound: bool,
}

/// What has to be uploaded before culling.
#[derive(Clone, Copy, Debug)]
pub struct CullUpload {
    /// Whether the tables are written, and which buffers have to be made anew.
    pub tables: bool,
    pub models_grew: bool,
    pub lods_grew: bool,
    pub sections_grew: bool,
    pub section_materials_grew: bool,
    pub instances_grew: bool,
    /// The first slot that is written, and how many.
    pub static_write: Option<(u32, u32)>,
    /// The slot at which this frame's instances are written, if there are any.
    pub dynamic_at: Option<u32>,
    pub args_grew: bool,
    /// Anything was made anew.
    pub grew: bool,
    /// The culling's own group has to be filled again.
    pub rebind: bool,
}

impl CullState {
    /// Slots lie within the instances.
    pub open spec fn wf(&self) -> bool {
        &&& self.static_instances@.len() <= MAX_SLOTS
        &&& self.uploaded_static_len <= self.static_instances@.len()
        &&& forall|i: int|
            0 <= i < self.free_slots@.len() ==> #[trigger] self.free_slots@[i]
                < self.static_instances@.len()
        &&& self.static_dirty matches Some((lo, hi)) ==> lo <= hi < self.static_instances@.len()
        &&& self.variant_capacity == DEFAULT_VARIANT_CAPACITY
    }

    /// Each free slot is listed once.
    pub open spec fn tidy(&self) -> bool {
        self.free_slots@.no_duplicates()
    }

    /// Free slots hold no instance.
    pub open spec fn marked(&self) -> bool {
        forall|i: int|
            0 <= i < self.free_slots@.len()
                ==> self.static_instances@[#[trigger] self.free_slots@[i] as int].model
                == INVALID_MODEL
    }

    /// `slot` was handed out and not taken back.
    pub open spec fn occupied(&self, slot: u32) -> bool {
        slot < self.static_instances@.len() && !self.free_slots@.contains(slot)
    }

    /// The slot changed since the upload.
    pub open spec fn changed(&self, slot: int) -> bool {
        self.static_dirty matches Some((lo, hi)) && lo <= slot <= hi
    }

    /// The device holds every slot that did not change since the upload.
    pub open spec fn reflected_by(&self, dev: Map<int, InstanceGpu>) -> bool {
        forall|i: int|
            #![trigger dev.contains_key(i)]
            #![trigger dev[i]]
            0 <= i < self.uploaded_static_len && !self.changed(i) ==> dev.contains_key(i) && dev[i]
                == self.static_instances@[i]
    }

    /// Nothing but the instances differs.
    pub open spec fn same_but_instances(&self, other: &CullState) -> bool {
        &&& self.models == other.models
        &&& self.lods == other.lods
        &&& self.sections == other.sections
        &&& self.section_materials == other.section_materials
        &&& self.tables_dirty == other.tables_dirty
        &&& self.uploaded_static_len == other.uploaded_static_len
        &&& self.same_buffers(other)
        &&& self.params == other.params
    }

    /// The buffers are the same.
    pub open spec fn same_buffers(&self, other: &CullState) -> bool {
        &&& self.model_buf == other.model_buf
        &&& self.lod_buf == other.lod_buf
        &&& self.section_buf == other.section_buf
        &&& self.section_mat_buf == other.section_mat_buf
        &&& self.instance_buf == other.instance_buf
        &&& self.out_args_cap == other.out_args_cap
        &&& self.variant_capacity == other.variant_capacity
        &&& self.bound == other.bound
    }

    /// An empty scene.
    pub fn new() -> (c: CullState)
        ensures
            c.wf(),
            c.tidy(),
            c.marked(),
            c.models@.len() == 0,
            c.lods@.len() == 0,
            c.sections@.len() == 0,
            c.section_materials@.len() == 0,
            !c.tables_dirty,
            c.static_instances@.len() == 0,
            c.free_slots@.len() == 0,
            c.static_dirty is None,
            c.dynamic@.len() == 0,
            c.uploaded_static_len == 0,
            c.model_buf == Growable::spec_absent(),
            c.lod_buf == Growable::spec_absent(),
            c.section_buf == Growable::spec_absent(),
            c.section_mat_buf == Growable::spec_absent(),
            c.instance_buf == Growable::spec_absent(),
            c.out_args_cap == 0,
            c.params == zeroed_params(),
            !c.bound,
    {
        CullState {
            models: Vec::new(),
            lods: Vec::new(),
            sections: Vec::new(),
            section_materials: Vec::new(),
            tables_dirty: false,
            static_instances: Vec::new(),
            free_slots: Vec::new(),
            static_dirty: None,
            dynamic: Vec::new(),
            uploaded_static_len: 0,
            model_buf: Growable::absent(),
            lod_buf: Growable::absent(),
            section_buf: Growable::absent(),
            section_mat_buf: Growable::absent(),
            instance_buf: Growable::absent(),
            out_args_cap: 0,
            variant_capacity: DEFAULT_VARIANT_CAPACITY,
            params: no_params(),
            bound: false,
        }
    }
}

/// Parameters of nothing but zeroes.
pub open spec fn zeroed_params() -> CullParamsGpu {
    CullParamsGpu {
        frustum: [
        [0, 0, 0, 0],
        [0, 0, 0, 0],
        [0, 0, 0, 0],
        [0, 0, 0, 0],
        [0, 0, 0, 0],
        [0, 0, 0, 0],
    ],
        cam_pos: [0, 0, 0, 0],
        objects_z2: 0,
        lod_scale: 0,
        lod_inv_width: 0,
        pixel_limit: 0,
        instance_count: 0,
        variant_capacity: 0,
        variant_count: 0,
    }
}

fn no_params() -> (p: CullParamsGpu)
    ensures
        p == zeroed_params(),
{
    CullParamsGpu {
        frustum: [
        [0, 0, 0, 0],
        [0, 0, 0, 0],
        [0, 0, 0, 0],
        [0, 0, 0, 0],
        [0, 0, 0, 0],
        [0, 0, 0, 0],
    ],
        cam_pos: [0, 0, 0, 0],
        objects_z2: 0,
        lod_scale: 0,
        lod_inv_width: 0,
        pixel_limit: 0,
        instance_count: 0,
        variant_capacity: 0,
        variant_count: 0,
    }
}

impl CullState {
    /// The tables have room for a model, and its sections can be named.
    pub open spec fn has_room(
        &self,
        lods: Seq<LodGpu>,
        sections: Seq<SectionGpu>,
    ) -> bool {
        &&& self.models@.len() < u32::MAX
        &&& self.lods@.len() + lods.len() <= u32::MAX
        &&& self.sections@.len() + sections.len() <= u32::MAX
        &&& forall|i: int|
            0 <= i < lods.len() ==> (#[trigger] lods[i]).section_base + self.sections@.len()
                <= u32::MAX
    }

    /// The levels of detail with their sections counted from `offset`.
    pub open spec fn moved_lods(lods: Seq<LodGpu>, offset: int) -> Seq<LodGpu> {
        lods.map_values(
            |l: LodGpu| LodGpu { section_base: (l.section_base + offset) as u32, ..l },
        )
    }

    /// Registers a model whose levels of detail count their sections from the model's first;
    /// gives the model's position.
    pub fn register_model(
        &mut self,
        bounding_sphere: u32,
        lods: &[LodGpu],
        sections: &[SectionGpu],
        materials: &[SectionMaterialGpu],
    ) -> (model: u32)
        requires
            old(self).wf(),
            old(self).has_room(lods@, sections@),
        ensures
            final(self).wf(),
            model == old(self).models@.len(),
            final(self).models@ == old(self).models@.push(
                ModelGpu {
                    lod_base: old(self).lods@.len() as u32,
                    lod_count: lods@.len() as u32,
                    bounding_sphere,
                },
            ),
            final(self).lods@ == old(self).lods@ + CullState::moved_lods(
                lods@,
                old(self).sections@.len() as int,
            ),
            final(self).sections@ == old(self).sections@ + sections@,
            final(self).section_materials@ == old(self).section_materials@ + materials@,
            final(self).tables_dirty,
            final(self).static_instances == old(self).static_instances,
            final(self).free_slots == old(self).free_slots,
            final(self).static_dirty == old(self).static_dirty,
            final(self).dynamic == old(self).dynamic,
            final(self).uploaded_static_len == old(self).uploaded_static_len,
            final(self).same_buffers(old(self)),
            final(self).params == old(self).params,
    {
        let section_offset: u32 = self.sections.len() as u32;
        let lod_offset: u32 = self.lods.len() as u32;
        append_copies(&mut self.sections, sections);
        append_copies(&mut self.section_materials, materials);
        let ghost before = self.lods@;
        let ghost moved = CullState::moved_lods(lods@, section_offset as int);
        let ghost start = *self;
        let mut i: usize = 0;
        while i < lods.len()
            invariant
                i <= lods@.len(),
                moved == CullState::moved_lods(lods@, section_offset as int),
                forall|k: int|
                    0 <= k < lods@.len() ==> (#[trigger] lods@[k]).section_base + section_offset
                        <= u32::MAX,
                self.lods@ == before + moved.take(i as int),
                *self == (CullState { lods: self.lods, ..start }),
            decreases lods@.len() - i,
        {
            let mut l: LodGpu = lods[i];
            l.section_base = l.section_base + section_offset;
            self.lods.push(l);
            proof {
                assert(moved.take(i as int).push(moved[i as int]) =~= moved.take(i + 1));
                assert(moved[i as int] == l);
            }
            i = i + 1;
        }
        proof {
            assert(moved.take(i as int) =~= moved);
        }
        let model: u32 = self.models.len() as u32;
        self.models.push(
            ModelGpu { lod_base: lod_offset, lod_count: lods.len() as u32, bounding_sphere },
        );
        self.tables_dirty = true;
        model
    }

    /// Replaces the sections; nothing is uploaded if they are the same.
    pub fn set_sections(&mut self, sections: &[SectionGpu])
        requires
            old(self).wf(),
        ensures
            final(self).wf(),
            final(self).sections@ == sections@,
            final(self).tables_dirty == (old(self).tables_dirty || old(self).sections@
                != sections@),
            final(self).models == old(self).models,
            final(self).lods == old(self).lods,
            final(self).section_materials == old(self).section_materials,
            final(self).static_instances == old(self).static_instances,
            final(self).free_slots == old(self).free_slots,
            final(self).static_dirty == old(self).static_dirty,
            final(self).dynamic == old(self).dynamic,
            final(self).uploaded_static_len == old(self).uploaded_static_len,
            final(self).same_buffers(old(self)),
            final(self).params == old(self).params,
    {
        if !same_sections(&self.sections, sections) {
            let mut fresh: Vec<SectionGpu> = Vec::new();
            append_copies(&mut fresh, sections);
            proof {
                assert(fresh@ =~= sections@);
            }
            self.sections = fresh;
            self.tables_dirty = true;
        }
    }

    fn mark_static_dirty(&mut self, slot: u32)
        requires
            slot < old(self).static_instances@.len(),
            old(self).static_dirty matches Some((lo, hi)) ==> lo <= hi
                < old(self).static_instances@.len(),
        ensures
            *final(self) == (CullState { static_dirty: final(self).static_dirty, ..*old(self) }),
            final(self).static_dirty == Some(widened(old(self).static_dirty, slot)),
    {
        self.static_dirty = Some(
            match self.static_dirty {
                Some((lo, hi)) => (min_u32(lo, slot), max_u32(hi, slot)),
                None => (slot, slot),
            },
        );
    }

    /// The slot the next instance gets.
    pub open spec fn next_slot(&self) -> u32 {
        if self.free_slots@.len() > 0 {
            self.free_slots@.last()
        } else {
            self.static_instances@.len() as u32
        }
    }

    /// There is a number for the slot of the next instance.
    pub open spec fn can_add(&self) -> bool {
        self.free_slots@.len() > 0 || self.static_instances@.len() < MAX_SLOTS
    }

    /// What was there before, and `inst` in the next slot.
    pub open spec fn adds(&self, before: &CullState, inst: InstanceGpu) -> bool {
        if before.free_slots@.len() > 0 {
            &&& self.free_slots@ == before.free_slots@.drop_last()
            &&& self.static_instances@ == before.static_instances@.update(
                before.next_slot() as int,
                inst,
            )
        } else {
            &&& self.free_slots@ == before.free_slots@
            &&& self.static_instances@ == before.static_instances@.push(inst)
        }
    }

    /// What was there before, with `slot` taken back.
    pub open spec fn removes(&self, before: &CullState, slot: u32) -> bool {
        &&& self.free_slots@ == before.free_slots@.push(slot)
        &&& self.static_instances@ == before.static_instances@.update(
            slot as int,
            (InstanceGpu { model: INVALID_MODEL, ..before.static_instances@[slot as int] }),
        )
    }

    /// Adds an instance in the slot freed last, or else in a new one.
    pub fn instance_add(&mut self, inst: InstanceGpu) -> (slot: u32)
        requires
            old(self).wf(),
            old(self).can_add(),
        ensures
            final(self).wf(),
            slot == old(self).next_slot(),
            final(self).adds(old(self), inst),
            old(self).tidy() ==> !old(self).occupied(slot) && final(self).tidy(),
            final(self).static_dirty == Some(widened(old(self).static_dirty, slot)),
            final(self).dynamic == old(self).dynamic,
            final(self).same_but_instances(old(self)),
            forall|dev: Map<int, InstanceGpu>| #[trigger]
                old(self).reflected_by(dev) ==> final(self).reflected_by(dev),
    {
        let slot: u32 = match self.free_slots.pop() {
            Some(s) => {
                self.static_instances.set(s as usize, inst);
                s
            },
            None => {
                self.static_instances.push(inst);
                (self.static_instances.len() - 1) as u32
            },
        };
        self.mark_static_dirty(slot);
        proof {
            if old(self).tidy() {
                a_new_slot_was_free(*old(self), *self, inst, slot);
            }
        }
        slot
    }

    /// Changes the instance in a slot; slots that were never handed out are left alone.
    pub fn instance_update(&mut self, slot: u32, inst: InstanceGpu)
        requires
            old(self).wf(),
        ensures
            final(self).wf(),
            slot >= old(self).static_instances@.len() ==> *final(self) == *old(self),
            slot < old(self).static_instances@.len() ==> final(self).static_instances@
                == old(self).static_instances@.update(slot as int, inst)
                && final(self).static_dirty == Some(widened(old(self).static_dirty, slot)),
            final(self).free_slots == old(self).free_slots,
            final(self).dynamic == old(self).dynamic,
            final(self).same_but_instances(old(self)),
            forall|dev: Map<int, InstanceGpu>| #[trigger]
                old(self).reflected_by(dev) ==> final(self).reflected_by(dev),
    {
        if (slot as usize) < self.static_instances.len() {
            self.static_instances.set(slot as usize, inst);
            self.mark_static_dirty(slot);
        }
    }

    /// Takes an instance out of its slot, which is then free.
    pub fn instance_remove(&mut self, slot: u32)
        requires
            old(self).wf(),
        ensures
            final(self).wf(),
            slot >= old(self).static_instances@.len() ==> *final(self) == *old(self),
            slot < old(self).static_instances@.len() ==> final(self).removes(old(self), slot)
                && final(self).static_dirty == Some(widened(old(self).static_dirty, slot)),
            old(self).tidy() && old(self).occupied(slot) ==> final(self).tidy(),
            old(self).tidy() && old(self).occupied(slot) ==> !final(self).occupied(slot),
            final(self).dynamic == old(self).dynamic,
            final(self).same_but_instances(old(self)),
            forall|dev: Map<int, InstanceGpu>| #[trigger]
                old(self).reflected_by(dev) ==> final(self).reflected_by(dev),
    {
        if (slot as usize) < self.static_instances.len() {
            let mut inst: InstanceGpu = self.static_instances[slot as usize];
            inst.model = INVALID_MODEL;
            self.static_instances.set(slot as usize, inst);
            self.free_slots.push(slot);
            self.mark_static_dirty(slot);
            proof {
                if old(self).tidy() && old(self).occupied(slot) {
                    a_removed_slot_is_free(*old(self), *self, slot);
                }
            }
        }
    }

    /// Replaces the instances of this frame.
    pub fn set_dynamic(&mut self, instances: &[InstanceGpu])
        requires
            old(self).wf(),
        ensures
            final(self).wf(),
            final(self).dynamic@ == instances@,
            final(self).static_instances == old(self).static_instances,
            final(self).free_slots == old(self).free_slots,
            final(self).static_dirty == old(self).static_dirty,
            final(self).same_but_instances(old(self)),
    {
        let mut fresh: Vec<InstanceGpu> = Vec::new();
        append_copies(&mut fresh, instances);
        proof {
            assert(fresh@ =~= instances@);
        }
        self.dynamic = fresh;
    }

    /// Sets what this frame's culling goes by; the counts are set when it is prepared.
    pub fn set_params(&mut self, params: CullParamsGpu)
        ensures
            *final(self) == (CullState { params, ..*old(self) }),
    {
        self.params = params;
    }
}

/// The tables' buffers after their upload.
pub open spec fn tables_after(before: &CullState, after: &CullState) -> bool {
    if before.tables_dirty {
        &&& after.model_buf == before.model_buf.after(
            table_bytes(before.models@.len() as int, MODEL_SIZE as int),
            MIN_STORAGE as int,
        )
        &&& after.lod_buf == before.lod_buf.after(
            table_bytes(before.lods@.len() as int, LOD_SIZE as int),
            MIN_STORAGE as int,
        )
        &&& after.section_buf == before.section_buf.after(
            table_bytes(before.sections@.len() as int, SECTION_SIZE as int),
            MIN_STORAGE as int,
        )
        &&& after.section_mat_buf == before.section_mat_buf.after(
            table_bytes(before.section_materials@.len() as int, SECTION_MATERIAL_SIZE as int),
            MIN_STORAGE as int,
        )
    } else {
        &&& after.model_buf == before.model_buf
        &&& after.lod_buf == before.lod_buf
        &&& after.section_buf == before.section_buf
        &&& after.section_mat_buf == before.section_mat_buf
    }
}

impl CullState {
    /// The tables and instances can be counted in bytes.
    pub open spec fn countable(&self) -> bool {
        &&& self.models@.len() * MODEL_SIZE <= POWER_OF_TWO_LIMIT
        &&& self.lods@.len() * LOD_SIZE <= POWER_OF_TWO_LIMIT
        &&& self.sections@.len() * SECTION_SIZE <= POWER_OF_TWO_LIMIT
        &&& self.section_materials@.len() * SECTION_MATERIAL_SIZE <= POWER_OF_TWO_LIMIT
        &&& self.static_instances@.len() + self.dynamic@.len() <= u32::MAX
    }

    /// How many instances there are, holes counted.
    pub open spec fn total(&self) -> int {
        (self.static_instances@.len() + self.dynamic@.len()) as int
    }

    /// The device's buffer has room for every instance.
    pub open spec fn instances_fit(&self) -> bool {
        self.instance_buf.fits(larger(self.total(), 1) * INSTANCE_SIZE)
    }

    /// The slots that an upload writes: all of them if there are more than before or the buffer
    /// is made anew, else those that changed.
    pub open spec fn slots_to_write(&self, anew: bool) -> Option<(u32, u32)> {
        let len = self.static_instances@.len() as u32;
        if (self.uploaded_static_len != len || anew) && len > 0 {
            Some((0u32, len))
        } else {
            match self.static_dirty {
                Some((lo, hi)) => Some((lo, (hi - lo + 1) as u32)),
                None => None,
            }
        }
    }

    /// Bytes of the draw arguments of all variants.
    pub open spec fn args_bytes(&self) -> int {
        CULL_VARIANT_COUNT * self.variant_capacity * INDIRECT_ARG_SIZE
    }

    /// Everything the culling reads and writes exists.
    pub open spec fn complete(&self) -> bool {
        self.instance_buf.exists && self.model_buf.exists && self.lod_buf.exists
            && self.section_buf.exists && self.out_args_cap > 0
    }

    fn upload_tables(&mut self) -> (grew: (bool, bool, bool, bool))
        requires
            old(self).wf(),
            old(self).countable(),
        ensures
            *final(self) == (CullState {
                tables_dirty: false,
                model_buf: final(self).model_buf,
                lod_buf: final(self).lod_buf,
                section_buf: final(self).section_buf,
                section_mat_buf: final(self).section_mat_buf,
                ..*old(self)
            }),
            tables_after(old(self), final(self)),
            grew.0 == (old(self).tables_dirty && !old(self).model_buf.fits(
                table_bytes(old(self).models@.len() as int, MODEL_SIZE as int),
            )),
            grew.1 == (old(self).tables_dirty && !old(self).lod_buf.fits(
                table_bytes(old(self).lods@.len() as int, LOD_SIZE as int),
            )),
            grew.2 == (old(self).tables_dirty && !old(self).section_buf.fits(
                table_bytes(old(self).sections@.len() as int, SECTION_SIZE as int),
            )),
            grew.3 == (old(self).tables_dirty && !old(self).section_mat_buf.fits(
                table_bytes(
                    old(self).section_materials@.len() as int,
                    SECTION_MATERIAL_SIZE as int,
                ),
            )),
    {
        if !self.tables_dirty {
            return (false, false, false, false);
        }
        let models: bool = grow_table(&mut self.model_buf, self.models.len(), MODEL_SIZE);
        let lods: bool = grow_table(&mut self.lod_buf, self.lods.len(), LOD_SIZE);
        let sections: bool = grow_table(&mut self.section_buf, self.sections.len(), SECTION_SIZE);
        let materials: bool = grow_table(
            &mut self.section_mat_buf,
            self.section_materials.len(),
            SECTION_MATERIAL_SIZE,
        );
        self.tables_dirty = false;
        (models, lods, sections, materials)
    }

    fn slots_written(&self, anew: bool) -> (w: Option<(u32, u32)>)
        requires
            self.wf(),
            self.static_instances@.len() <= u32::MAX,
        ensures
            w == self.slots_to_write(anew),
    {
        let len: u32 = self.static_instances.len() as u32;
        if (self.uploaded_static_len != len || anew) && len > 0 {
            Some((0u32, len))
        } else {
            match self.static_dirty {
                Some((lo, hi)) => Some((lo, hi - lo + 1)),
                None => None,
            }
        }
    }

    /// Makes room for everything and says what is to be uploaded.
    pub fn prepare(&mut self) -> (up: CullUpload)
        requires
            old(self).wf(),
            old(self).countable(),
        ensures
            final(self).wf(),
            final(self).countable(),
            final(self).models == old(self).models,
            final(self).lods == old(self).lods,
            final(self).sections == old(self).sections,
            final(self).section_materials == old(self).section_materials,
            final(self).static_instances == old(self).static_instances,
            final(self).free_slots == old(self).free_slots,
            final(self).dynamic == old(self).dynamic,
            final(self).variant_capacity == old(self).variant_capacity,
            !final(self).tables_dirty,
            final(self).static_dirty is None,
            final(self).uploaded_static_len == old(self).static_instances@.len(),
            final(self).params == (CullParamsGpu {
                instance_count: old(self).total() as u32,
                variant_capacity: old(self).variant_capacity,
                variant_count: CULL_VARIANT_COUNT,
                ..old(self).params
            }),
            tables_after(old(self), final(self)),
            final(self).instance_buf == old(self).instance_buf.after(
                larger(old(self).total(), 1) * INSTANCE_SIZE,
                MIN_STORAGE as int,
            ),
            final(self).out_args_cap == larger(
                old(self).out_args_cap as int,
                old(self).args_bytes(),
            ),
            final(self).bound == if up.rebind {
                final(self).complete()
            } else {
                old(self).bound
            },
            up.tables == old(self).tables_dirty,
            up.models_grew == (old(self).tables_dirty && !old(self).model_buf.fits(
                table_bytes(old(self).models@.len() as int, MODEL_SIZE as int),
            )),
            up.lods_grew == (old(self).tables_dirty && !old(self).lod_buf.fits(
                table_bytes(old(self).lods@.len() as int, LOD_SIZE as int),
            )),
            up.sections_grew == (old(self).tables_dirty && !old(self).section_buf.fits(
                table_bytes(old(self).sections@.len() as int, SECTION_SIZE as int),
            )),
            up.section_materials_grew == (old(self).tables_dirty && !old(
                self,
            ).section_mat_buf.fits(
                table_bytes(
                    old(self).section_materials@.len() as int,
                    SECTION_MATERIAL_SIZE as int,
                ),
            )),
            up.instances_grew == !old(self).instances_fit(),
            up.static_write == old(self).slots_to_write(!old(self).instances_fit()),
            up.dynamic_at == if old(self).dynamic@.len() > 0 {
                Some(old(self).static_instances@.len() as u32)
            } else {
                None
            },
            up.args_grew == (old(self).out_args_cap < old(self).args_bytes()),
            up.grew == (up.models_grew || up.lods_grew || up.sections_grew
                || up.section_materials_grew || up.instances_grew || up.args_grew),
            up.rebind == (up.grew || !old(self).bound),
    {
        let tables: bool = self.tables_dirty;
        let grown: (bool, bool, bool, bool) = self.upload_tables();
        let static_len: u32 = self.static_instances.len() as u32;
        let total: u32 = static_len + self.dynamic.len() as u32;
        let bytes: u64 = max_u32(total, 1) as u64 * INSTANCE_SIZE;
        let instances_grew: bool = self.instance_buf.ensure(bytes, MIN_STORAGE);
        let static_write: Option<(u32, u32)> = self.slots_written(instances_grew);
        let dynamic_at: Option<u32> = if self.dynamic.len() > 0 {
            Some(static_len)
        } else {
            None
        };
        self.static_dirty = None;
        self.uploaded_static_len = static_len;
        assert(self.variant_capacity == DEFAULT_VARIANT_CAPACITY);
        let args_bytes: u64 = CULL_VARIANT_COUNT as u64 * self.variant_capacity as u64
            * INDIRECT_ARG_SIZE;
        let args_grew: bool = self.out_args_cap < args_bytes;
        self.out_args_cap = max_u64(self.out_args_cap, args_bytes);
        self.params.instance_count = total;
        self.params.variant_capacity = self.variant_capacity;
        self.params.variant_count = CULL_VARIANT_COUNT;
        let grew: bool = grown.0 || grown.1 || grown.2 || grown.3 || instances_grew || args_grew;
        let rebind: bool = grew || !self.bound;
        if rebind {
            self.bound = self.instance_buf.exists && self.model_buf.exists && self.lod_buf.exists
                && self.section_buf.exists && self.out_args_cap > 0;
        }
        CullUpload {
            tables,
            models_grew: grown.0,
            lods_grew: grown.1,
            sections_grew: grown.2,
            section_materials_grew: grown.3,
            instances_grew,
            static_write,
            dynamic_at,
            args_grew,
            grew,
            rebind,
        }
    }

    /// How many workgroups cull the scene, one thread for each instance; none if there is
    /// nothing to cull, or not everything it takes. The counters and arguments are cleared
    /// before.
    pub fn dispatch(&self) -> (groups: Option<u32>)
        ensures
            groups == if self.bound && self.out_args_cap > 0 && self.params.instance_count > 0 {
                Some(ceil_div(self.params.instance_count as int, CULL_GROUP as int) as u32)
            } else {
                None
            },
    {
        if !self.bound || self.out_args_cap == 0 || self.params.instance_count == 0 {
            return None;
        }
        Some(div_ceil_u32(self.params.instance_count, CULL_GROUP))
    }

    /// How many draws a variant holds.
    pub fn variant_capacity(&self) -> (n: u32)
        ensures
            n == self.variant_capacity,
    {
        self.variant_capacity
    }
}

/// What the device holds after an upload. A buffer made anew holds nothing at first.
pub open spec fn device_after(
    dev: Map<int, InstanceGpu>,
    state: &CullState,
    up: &CullUpload,
) -> Map<int, InstanceGpu> {
    let kept = if up.instances_grew {
        Map::empty()
    } else {
        dev
    };
    let written = match up.static_write {
        Some((first, count)) => kept.union_prefer_right(
            Map::new(
                |i: int| first <= i < first + count,
                |i: int| state.static_instances@[i],
            ),
        ),
        None => kept,
    };
    match up.dynamic_at {
        Some(at) => written.union_prefer_right(
            Map::new(
                |i: int| at <= i < at + state.dynamic@.len(),
                |i: int| state.dynamic@[i - at],
            ),
        ),
        None => written,
    }
}

/// After an upload the device holds every slot and, behind them, this frame's instances, and the
/// uploads that follow may go by the slots that change.
pub proof fn instances_reach_the_device(
    before: CullState,
    after: CullState,
    up: CullUpload,
    dev: Map<int, InstanceGpu>,
)
    requires
        before.wf(),
        before.countable(),
        before.reflected_by(dev),
        up.static_write == before.slots_to_write(up.instances_grew),
        up.dynamic_at == if before.dynamic@.len() > 0 {
            Some(before.static_instances@.len() as u32)
        } else {
            None
        },
        after.static_instances == before.static_instances,
        after.static_dirty is None,
        after.uploaded_static_len == before.static_instances@.len(),
    ensures
        forall|i: int|
            0 <= i < before.static_instances@.len() ==> #[trigger] device_after(
                dev,
                &before,
                &up,
            )[i] == before.static_instances@[i],
        forall|j: int|
            0 <= j < before.dynamic@.len() ==> device_after(dev, &before, &up)[(
            before.static_instances@.len() + j)] == #[trigger] before.dynamic@[j],
        after.reflected_by(device_after(dev, &before, &up)),
{
    assert forall|i: int| 0 <= i < before.static_instances@.len() implies #[trigger] device_after(
        dev,
        &before,
        &up,
    )[i] == before.static_instances@[i] by {
        if before.uploaded_static_len == before.static_instances@.len() && !before.changed(i) {
            assert(dev[i] == before.static_instances@[i]);
        }
    }
    let now = device_after(dev, &before, &up);
    assert forall|i: int| 0 <= i < before.static_instances@.len() implies #[trigger]
    now.contains_key(i) by {
        if before.uploaded_static_len == before.static_instances@.len() && !before.changed(i) {
            assert(dev.contains_key(i));
        }
    }
}

/// Where slots are taken back once each, the slot of a new instance belonged to none, and no
/// other slot changes hands.
pub proof fn a_new_slot_was_free(before: CullState, after: CullState, inst: InstanceGpu, slot: u32)
    requires
        before.wf(),
        before.tidy(),
        slot == before.next_slot(),
        before.can_add(),
        after.adds(&before, inst),
    ensures
        !before.occupied(slot),
        after.occupied(slot),
        after.static_instances@[slot as int] == inst,
        after.tidy(),
        before.marked() ==> after.marked(),
        forall|other: u32| other != slot ==> #[trigger] after.occupied(other) == before.occupied(
            other,
        ),
        forall|other: u32| #[trigger]
            before.occupied(other) ==> after.static_instances@[other as int]
                == before.static_instances@[other as int],
{
    let free = before.free_slots@;
    if free.len() > 0 {
        assert(free[free.len() - 1] == slot);
        assert(free.contains(slot));
        assert forall|other: u32| other != slot implies #[trigger] after.free_slots@.contains(other)
            == free.contains(other) by {
            if free.contains(other) {
                let k = choose|k: int| 0 <= k < free.len() && free[k] == other;
                assert(after.free_slots@[k] == other);
            }
        }
        if after.free_slots@.contains(slot) {
            let k = choose|k: int| 0 <= k < free.len() - 1 && after.free_slots@[k] == slot;
            assert(free[k] == free[free.len() - 1]);
        }
        if before.marked() {
            assert forall|i: int| 0 <= i < after.free_slots@.len() implies after.static_instances@[
            #[trigger] after.free_slots@[i] as int].model == INVALID_MODEL by {
                assert(free[i] == after.free_slots@[i]);
                assert(free[i] != free[free.len() - 1]);
            }
        }
        assert forall|i: int, j: int|
            0 <= i < after.free_slots@.len() && 0 <= j < after.free_slots@.len() && i
                != j implies after.free_slots@[i] != after.free_slots@[j] by {
            assert(free[i] != free[j]);
        }
    } else {
        assert(!before.occupied(slot));
    }
}

/// Taking an instance out of its slot frees that slot and no other.
pub proof fn a_removed_slot_is_free(before: CullState, after: CullState, slot: u32)
    requires
        before.wf(),
        before.tidy(),
        before.occupied(slot),
        after.removes(&before, slot),
    ensures
        !after.occupied(slot),
        after.tidy(),
        before.marked() ==> after.marked(),
        after.next_slot() == slot,
        forall|other: u32| other != slot ==> #[trigger] after.occupied(other) == before.occupied(
            other,
        ),
{
    let free = before.free_slots@;
    assert(after.free_slots@[free.len() as int] == slot);
    assert(after.free_slots@.contains(slot));
    assert forall|other: u32| other != slot implies #[trigger] after.free_slots@.contains(other)
        == free.contains(other) by {
        if free.contains(other) {
            let k = choose|k: int| 0 <= k < free.len() && free[k] == other;
            assert(after.free_slots@[k] == other);
        }
    }
    if before.marked() {
        assert forall|i: int| 0 <= i < after.free_slots@.len() implies after.static_instances@[
        #[trigger] after.free_slots@[i] as int].model == INVALID_MODEL by {
            if i < free.len() {
                assert(free[i] == after.free_slots@[i]);
            }
        }
    }
}

/// One step in the life of the slots: an instance comes, one that is held goes, or no slot
/// changes hands.
pub open spec fn slots_step(before: CullState, after: CullState) -> bool {
    ||| before.can_add() && exists|inst: InstanceGpu| #[trigger] after.adds(&before, inst)
    ||| exists|slot: u32| #[trigger] before.occupied(slot) && after.removes(&before, slot)
    ||| after.free_slots@ == before.free_slots@ && after.static_instances@.len()
        == before.static_instances@.len()
}

/// As long as only held slots are taken back, the next instance never gets a slot that is held.
pub proof fn held_slots_are_not_handed_out(states: Seq<CullState>, k: int)
    requires
        0 <= k < states.len(),
        states[0].tidy(),
        forall|i: int| 0 <= i < states.len() ==> (#[trigger] states[i]).wf(),
        forall|i: int|
            0 <= i < states.len() - 1 ==> slots_step(#[trigger] states[i], states[i + 1]),
    ensures
        states[k].tidy(),
        states[k].can_add() ==> !states[k].occupied(states[k].next_slot()),
    decreases k,
{
    let now = states[k];
    if k > 0 {
        held_slots_are_not_handed_out(states, k - 1);
        let before = states[k - 1];
        assert(slots_step(before, states[k - 1 + 1]));
        if before.can_add() && exists|inst: InstanceGpu| #[trigger] now.adds(&before, inst) {
            let inst = choose|inst: InstanceGpu| #[trigger] now.adds(&before, inst);
            a_new_slot_was_free(before, now, inst, before.next_slot());
        } else if exists|slot: u32| #[trigger]
            before.occupied(slot) && now.removes(&before, slot) {
            let slot = choose|slot: u32| #[trigger]
                before.occupied(slot) && now.removes(&before, slot);
            a_removed_slot_is_free(before, now, slot);
        }
    }
    if now.free_slots@.len() > 0 {
        assert(now.free_slots@.contains(now.next_slot())) by {
            assert(now.free_slots@[now.free_slots@.len() - 1] == now.next_slot());
        }
    }
}

/// A registered level of detail finds the sections it was registered with.
pub proof fn a_level_finds_its_sections(
    before: Seq<SectionGpu>,
    sections: Seq<SectionGpu>,
    lods: Seq<LodGpu>,
    l: int,
    k: int,
)
    requires
        before.len() + sections.len() <= u32::MAX,
        0 <= l < lods.len(),
        0 <= k < lods[l].section_count,
        lods[l].section_base + lods[l].section_count <= sections.len(),
    ensures
        (before + sections)[CullState::moved_lods(lods, before.len() as int)[l].section_base + k]
            == sections[lods[l].section_base + k],
{
}

/// What the engine says about distances and detail.
#[derive(Clone, Copy, Debug, PartialEq, Eq, Structural)]
pub struct CullInputs {
    /// The draw distance.
    pub objects_z: u32,
    pub lod_scale: u32,
    pub lod_inv_width: u32,
    pub pixel_limit: u32,
}

impl CullInputs {
    /// Everything in full detail within nine hundred metres.
    pub open spec fn spec_default() -> CullInputs {
        CullInputs {
            objects_z: 0x4461_0000,
            lod_scale: 0x3f80_0000,
            lod_inv_width: 0,
            pixel_limit: 0,
        }
    }
}

impl Default for CullInputs {
    fn default() -> (c: CullInputs)
        ensures
            c == CullInputs::spec_default(),
    {
        CullInputs {
            objects_z: 0x4461_0000,
            lod_scale: 0x3f80_0000,
            lod_inv_width: 0,
            pixel_limit: 0,
        }
    }
}

/// This frame's parameters, from the planes of the view and the square of the draw distance.
pub fn params_from_camera(
    frustum: [WgrVec4; 6],
    cam_pos: [u32; 3],
    objects_z2: u32,
    inputs: CullInputs,
) -> (p: CullParamsGpu)
    ensures
        p.frustum == frustum,
        p.cam_pos@ == seq![cam_pos[0], cam_pos[1], cam_pos[2], 0u32],
        p.objects_z2 == objects_z2,
        p.lod_scale == inputs.lod_scale,
        p.lod_inv_width == inputs.lod_inv_width,
        p.pixel_limit == inputs.pixel_limit,
        p.instance_count == 0,
        p.variant_capacity == 0,
        p.variant_count == 0,
{
    CullParamsGpu {
        frustum,
        cam_pos: [cam_pos[0], cam_pos[1], cam_pos[2], 0],
        objects_z2,
        lod_scale: inputs.lod_scale,
        lod_inv_width: inputs.lod_inv_width,
        pixel_limit: inputs.pixel_limit,
        instance_count: 0,
        variant_capacity: 0,
        variant_count: 0,
    }
}

/// A storage buffer that the culling reads or writes.
pub open spec fn cull_storage(binding: u32, read_only: bool) -> LayoutEntry {
    spec_entry(
        binding,
        spec_stages(false, false, true),
        BindingKind::Storage { read_only, min_size: 0 },
    )
}

fn cull_storage_entry(binding: u32, read_only: bool) -> (e: LayoutEntry)
    ensures
        e == cull_storage(binding, read_only),
{
    entry(
        binding,
        stages(false, false, true),
        BindingKind::Storage { read_only, min_size: 0 },
    )
}

/// What the culling binds: the parameters, four tables it reads, and the arguments, counters
/// and records it writes.
pub open spec fn cull_layout() -> Seq<LayoutEntry> {
    seq![
        spec_entry(
            0,
            spec_stages(false, false, true),
            BindingKind::Uniform { dynamic: false, min_size: 0 },
        ),
        cull_storage(1, true),
        cull_storage(2, true),
        cull_storage(3, true),
        cull_storage(4, true),
        cull_storage(5, false),
        cull_storage(6, false),
        cull_storage(7, false),
    ]
}

/// How the culling's group is filled: the parameters and counters are its own, the rest grows
/// with the scene.
pub open spec fn cull_group() -> Seq<BindEntry> {
    seq![
        spec_bind(0, Resource::Buffer(0)),
        spec_bind(1, Resource::Lent),
        spec_bind(2, Resource::Lent),
        spec_bind(3, Resource::Lent),
        spec_bind(4, Resource::Lent),
        spec_bind(5, Resource::Lent),
        spec_bind(6, Resource::Buffer(1)),
        spec_bind(7, Resource::Lent),
    ]
}

/// What the culling makes at its start.
pub fn cull_resources() -> (plan: ResourcePlan)
    ensures
        plan.wf(),
        plan.buffers@ == seq![
            BufferDesc { size: PARAMS_SIZE, usage: BufferUse::Uniform },
            BufferDesc { size: (CULL_VARIANT_COUNT * 4) as u64, usage: BufferUse::Indirect },
        ],
        plan.textures@.len() == 0,
        plan.samplers@.len() == 0,
        plan.layouts@.len() == 1,
        plan.layouts@[0]@ == cull_layout(),
        plan.groups@.len() == 1,
        plan.groups@[0].layout == 0,
        plan.groups@[0].entries@ == cull_group(),
{
    let mut layouts: Vec<Vec<LayoutEntry>> = Vec::new();
    layouts.push(
        vec![
            entry(
                0,
                stages(false, false, true),
                BindingKind::Uniform { dynamic: false, min_size: 0 },
            ),
            cull_storage_entry(1, true),
            cull_storage_entry(2, true),
            cull_storage_entry(3, true),
            cull_storage_entry(4, true),
            cull_storage_entry(5, false),
            cull_storage_entry(6, false),
            cull_storage_entry(7, false),
        ],
    );
    let mut groups: Vec<BindGroupDesc> = Vec::new();
    groups.push(
        BindGroupDesc {
            layout: 0,
            entries: vec![
                bind(0, Resource::Buffer(0)),
                bind(1, Resource::Lent),
                bind(2, Resource::Lent),
                bind(3, Resource::Lent),
                bind(4, Resource::Lent),
                bind(5, Resource::Lent),
                bind(6, Resource::Buffer(1)),
                bind(7, Resource::Lent),
            ],
        },
    );
    ResourcePlan {
        buffers: vec![
            BufferDesc { size: PARAMS_SIZE, usage: BufferUse::Uniform },
            BufferDesc { size: CULL_VARIANT_COUNT as u64 * 4, usage: BufferUse::Indirect },
        ],
        textures: Vec::new(),
        samplers: Vec::new(),
        layouts,
        groups,
    }
}

/// What draws of culled sections bind besides camera and textures: instances, records and
/// materials.
pub fn gpu_group1_layout() -> (layout: Vec<LayoutEntry>)
    ensures
        layout@.len() == 3,
        forall|b: int|
            0 <= b < 3 ==> #[trigger] layout@[b] == spec_entry(
                b as u32,
                spec_stages(true, true, false),
                BindingKind::Storage { read_only: true, min_size: 0 },
            ),
{
    vec![
        entry(
            0,
            stages(true, true, false),
            BindingKind::Storage { read_only: true, min_size: 0 },
        ),
        entry(
            1,
            stages(true, true, false),
            BindingKind::Storage { read_only: true, min_size: 0 },
        ),
        entry(
            2,
            stages(true, true, false),
            BindingKind::Storage { read_only: true, min_size: 0 },
        ),
    ]
}

/// Nearer is larger in the depth buffer; what is drawn hides what is behind it.
pub open spec fn nearer_hides() -> DepthDesc {
    DepthDesc { write: true, compare: DepthCompare::GreaterEqual }
}

/// The pipelines that draw culled sections: in colour, and as normals ahead of it.
pub fn build_gpu_pipeline(scene_is_linear: bool) -> (p: (RenderPipelineDesc, RenderPipelineDesc))
    ensures
        p.0 == (RenderPipelineDesc {
            target: ColorTarget::Scene,
            blend: None,
            depth: Some(nearer_hides()),
            cull_back: true,
            linear: scene_is_linear,
        }),
        p.1 == (RenderPipelineDesc {
            target: ColorTarget::Normals,
            linear: false,
            ..p.0
        }),
{
    let depth = Some(DepthDesc { write: true, compare: DepthCompare::GreaterEqual });
    let color = RenderPipelineDesc {
        target: ColorTarget::Scene,
        blend: None,
        depth,
        cull_back: true,
        linear: scene_is_linear,
    };
    let prepass = RenderPipelineDesc {
        target: ColorTarget::Normals,
        blend: None,
        depth,
        cull_back: true,
        linear: false,
    };
    (color, prepass)
}

} // verus!
