use crate::ffi::{
    WgrBlend, WgrDepthMode, WgrDraw3D, DRAW3D_ON_SURFACE, DRAW3D_ZBIAS_MASK, DRAW3D_ZBIAS_SHIFT,
    NO_PALETTE,
};
use crate::slots::{lookup, HandleTable, Record};
use vstd::prelude::*;

verus! {

/// What is known of a live mesh.
#[derive(Clone, Copy, Debug, PartialEq, Eq, Structural)]
pub struct Mesh {
    pub index_count: u32,
    pub vert_count: u32,
    /// Whether bones and weights were attached to its vertices.
    pub skinned: bool,
}

/// The mesh kept in a record.
pub open spec fn mesh_of(record: Record) -> Mesh {
    Mesh { index_count: record.0, vert_count: record.1, skinned: record.2 != 0 }
}

/// The mesh that `handle` names, if it is live.
pub open spec fn mesh_at(records: Map<u64, Record>, handle: u64) -> Option<Mesh> {
    match lookup(records, handle) {
        Some(r) => Some(mesh_of(r)),
        None => None,
    }
}

/// The mesh that `handle` names, if it is live.
pub fn find_mesh(meshes: &HandleTable, handle: u64) -> (m: Option<Mesh>)
    ensures
        m == mesh_at(meshes@, handle),
{
    match meshes.get(handle) {
        Some((index_count, vert_count, skin)) => Some(
            Mesh { index_count, vert_count, skinned: skin != 0 },
        ),
        None => None,
    }
}

/// How far a draw's polygons are pushed towards the camera, and why.
#[derive(Clone, Copy, Debug, PartialEq, Eq, Structural)]
pub enum Offset {
    /// Not at all.
    Plain,
    /// It lies on a surface.
    Decal,
    /// An overlay of the given level.
    ZBias(u8),
    /// A shadow polygon.
    Shadow,
}

/// The overlay level in a draw's flags.
pub open spec fn zbias_level(flags: u32) -> u32 {
    (flags & DRAW3D_ZBIAS_MASK) >> DRAW3D_ZBIAS_SHIFT
}

/// A draw's polygon offset: shadows first, then decals, then overlays.
pub open spec fn offset_of(d: &WgrDraw3D) -> Offset {
    if d.blend == WgrBlend::Shadow {
        Offset::Shadow
    } else if d.flags & DRAW3D_ON_SURFACE != 0 {
        Offset::Decal
    } else if zbias_level(d.flags) > 0 {
        Offset::ZBias(zbias_level(d.flags) as u8)
    } else {
        Offset::Plain
    }
}

/// One variant of the mesh pipeline. Draws of one key share a pipeline.
#[derive(Clone, Copy, Debug, PartialEq, Eq, Structural)]
pub struct PipelineKey {
    pub blend: WgrBlend,
    pub depth: WgrDepthMode,
    pub offset: Offset,
    /// The cutout threshold, baked into the pipeline.
    pub alpha_ref: u32,
    pub skinned: bool,
}

impl PipelineKey {
    /// The variant that draws `d`.
    pub open spec fn of_draw(d: &WgrDraw3D, skinned: bool) -> PipelineKey {
        PipelineKey {
            blend: d.blend,
            depth: d.depth,
            offset: offset_of(d),
            alpha_ref: d.alpha_ref,
            skinned,
        }
    }

    /// The variant that draws `d`.
    pub fn from_draw(d: &WgrDraw3D, skinned: bool) -> (k: PipelineKey)
        ensures
            k == PipelineKey::of_draw(d, skinned),
    {
        let level: u32 = (d.flags & DRAW3D_ZBIAS_MASK) >> DRAW3D_ZBIAS_SHIFT;
        let offset = if d.blend == WgrBlend::Shadow {
            Offset::Shadow
        } else if d.flags & DRAW3D_ON_SURFACE != 0 {
            Offset::Decal
        } else if level > 0 {
            Offset::ZBias(level as u8)
        } else {
            Offset::Plain
        };
        PipelineKey { blend: d.blend, depth: d.depth, offset, alpha_ref: d.alpha_ref, skinned }
    }
}

/// An overlay's level is at most three.
pub proof fn zbias_level_is_at_most_three(flags: u32)
    ensures
        zbias_level(flags) <= 3,
{
    assert((flags & 0x300) >> 8u32 <= 3) by (bit_vector);
}

/// Whether a draw of `m` with `palette_slot` moves with bones.
pub open spec fn moves_with_bones(palette_slot: u32, m: Mesh) -> bool {
    palette_slot != NO_PALETTE && m.skinned
}

} // verus!
