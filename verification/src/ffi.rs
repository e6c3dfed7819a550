use vstd::prelude::*;

verus! {

// What the engine hands over for a frame, as plain values. Lanes of floating-point vectors and
// matrices are carried as their bit patterns.

/// Bit patterns of a four-lane vector.
pub type WgrVec4 = [u32; 4];

/// Bit patterns of a column-major 4x4 matrix.
pub type WgrMat4 = [u32; 16];

/// An array lent by the engine: no array at all, or one of at least `len` elements.
pub struct WgrSlice<'a, T> {
    pub data: Option<&'a [T]>,
    pub len: u32,
}

impl<'a, T> WgrSlice<'a, T> {
    /// An array that is there is as long as it says.
    pub open spec fn wf(&self) -> bool {
        match self.data {
            Some(s) => s@.len() >= self.len,
            None => true,
        }
    }

    /// The elements lent: none without an array, else the first `len`.
    pub open spec fn elements(&self) -> Seq<T> {
        match self.data {
            Some(s) => s@.subrange(0, self.len as int),
            None => Seq::empty(),
        }
    }

    /// The elements as a slice.
    pub fn as_slice(&self) -> (s: &'a [T])
        requires
            self.wf(),
        ensures
            s@ == self.elements(),
    {
        match self.data {
            Some(s) => {
                let r: &'a [T] = vstd::slice::slice_subrange(s, 0, self.len as usize);
                r
            },
            None => &[],
        }
    }
}

/// The window system a surface belongs to.
#[derive(Clone, Copy, Debug, PartialEq, Eq, Structural)]
pub enum WgrPlatform {
    Win32,
    Xlib,
    Wayland,
}

/// How a draw's colour combines with what is there.
#[derive(Clone, Copy, Debug, PartialEq, Eq, Structural)]
pub enum WgrBlend {
    Opaque,
    Alpha,
    Additive,
    /// Darkens what is there: a shadow polygon.
    Shadow,
}

impl WgrBlend {
    /// The number the engine gives this mode.
    pub open spec fn spec_code(self) -> u32 {
        match self {
            WgrBlend::Opaque => 0,
            WgrBlend::Alpha => 1,
            WgrBlend::Additive => 2,
            WgrBlend::Shadow => 3,
        }
    }

    /// The number the engine gives this mode.
    pub fn code(self) -> (c: u32)
        ensures
            c == self.spec_code(),
    {
        match self {
            WgrBlend::Opaque => 0,
            WgrBlend::Alpha => 1,
            WgrBlend::Additive => 2,
            WgrBlend::Shadow => 3,
        }
    }
}

/// Sampler choice: the bits double as the index of one of eight samplers.
#[derive(Clone, Copy, Debug, PartialEq, Eq, Structural)]
pub struct WgrSampler2D(pub u32);

impl WgrSampler2D {
    /// The sampler's index.
    pub fn index(self) -> (i: usize)
        ensures
            i == self.0,
    {
        self.0 as usize
    }
}

/// `WgrSampler2D` bit: clamp horizontally instead of repeating.
pub const CLAMP_U: u32 = 1;

/// `WgrSampler2D` bit: clamp vertically instead of repeating.
pub const CLAMP_V: u32 = 2;

/// `WgrSampler2D` bit: take the nearest texel instead of filtering.
pub const POINT: u32 = 4;

/// How a draw uses the depth buffer.
#[derive(Clone, Copy, Debug, PartialEq, Eq, Structural)]
pub enum WgrDepthMode {
    /// Neither tested nor written.
    Off,
    Test,
    TestWrite,
}

impl WgrDepthMode {
    /// The number the engine gives this mode.
    pub open spec fn spec_code(self) -> u32 {
        match self {
            WgrDepthMode::Off => 0,
            WgrDepthMode::Test => 1,
            WgrDepthMode::TestWrite => 2,
        }
    }

    /// The number the engine gives this mode.
    pub fn code(self) -> (c: u32)
        ensures
            c == self.spec_code(),
    {
        match self {
            WgrDepthMode::Off => 0,
            WgrDepthMode::Test => 1,
            WgrDepthMode::TestWrite => 2,
        }
    }
}

/// A run of two-dimensional vertices drawn with one state.
#[derive(Clone, Copy, Debug, PartialEq, Eq, Structural)]
pub struct WgrDraw2DBatch {
    pub texture_id: u64,
    pub first_vertex: u32,
    pub vertex_count: u32,
    pub blend: WgrBlend,
    pub sampler: WgrSampler2D,
    /// A `WgrDepthMode` number; others mean no depth.
    pub depth: u32,
}

/// One draw of a section of a mesh.
#[derive(Clone, Copy, Debug)]
pub struct WgrDraw3D {
    pub mesh: u64,
    pub index_begin: u32,
    pub index_count: u32,
    pub texture_id: u64,
    pub world: WgrMat4,
    pub blend: WgrBlend,
    pub sampler: WgrSampler2D,
    pub camera: u32,
    /// The draw's block of bone matrices; `NO_PALETTE` if it is not skinned.
    pub palette_slot: u32,
    pub depth: WgrDepthMode,
    /// Cutout threshold; zero disables the test.
    pub alpha_ref: u32,
    pub flags: u32,
    pub mat_emissive: WgrVec4,
    pub mat_sun_ambient: WgrVec4,
    pub mat_sun_diffuse: WgrVec4,
    pub mat_light_diffuse: WgrVec4,
    pub mat_light_ambient: WgrVec4,
    pub mat_specular: WgrVec4,
    pub conform0: WgrVec4,
    pub conform1: WgrVec4,
    pub conform2: WgrVec4,
}

impl WgrDraw3D {
    /// One past the last index of the section.
    pub open spec fn index_end(&self) -> int {
        self.index_begin + self.index_count
    }
}

/// The palette slot of a draw without bones.
pub const NO_PALETTE: u32 = 0xffff_ffff;

/// `WgrDraw3D::flags`: the draw lies on a surface.
pub const DRAW3D_ON_SURFACE: u32 = 1;

/// `WgrDraw3D::flags`: where the depth-bias level (1 to 3) starts.
pub const DRAW3D_ZBIAS_SHIFT: u32 = 8;

/// `WgrDraw3D::flags`: the bits of the depth-bias level.
pub const DRAW3D_ZBIAS_MASK: u32 = 0x300;

/// A section of a mesh that casts a shadow.
#[derive(Clone, Copy, Debug)]
pub struct WgrShadowCaster {
    pub mesh: u64,
    pub index_begin: u32,
    pub index_count: u32,
    pub world: WgrMat4,
    /// Read only when the cutout threshold is positive.
    pub texture_id: u64,
    pub palette_slot: u32,
    pub alpha_ref: u32,
    pub sampler: WgrSampler2D,
    /// Bit `c` set: the caster is drawn into cascade `c`.
    pub cascade_mask: u32,
    pub conform0: WgrVec4,
    pub conform2: WgrVec4,
}

impl WgrShadowCaster {
    /// One past the last index of the section.
    pub open spec fn index_end(&self) -> int {
        self.index_begin + self.index_count
    }
}

/// The cascade depth passes of a frame; a count of zero disables them.
#[derive(Clone, Copy, Debug)]
pub struct WgrShadowPass {
    pub count: u32,
    pub resolution: u32,
    pub light_vp: [WgrMat4; 4],
    pub cam_pos: WgrVec4,
}

/// What a step of the command stream asks for.
#[derive(Clone, Copy, Debug, PartialEq, Eq, Structural)]
pub enum WgrCmdKind {
    Draw2D,
    Draw3D,
    ClearDepth,
    DrawTerrain,
    Resolve,
    DrawWater,
}

impl WgrCmdKind {
    /// The kind with the number `kind`, if there is one.
    pub open spec fn spec_from_code(kind: u32) -> Option<WgrCmdKind> {
        if kind == 0 {
            Some(WgrCmdKind::Draw2D)
        } else if kind == 1 {
            Some(WgrCmdKind::Draw3D)
        } else if kind == 2 {
            Some(WgrCmdKind::ClearDepth)
        } else if kind == 3 {
            Some(WgrCmdKind::DrawTerrain)
        } else if kind == 4 {
            Some(WgrCmdKind::Resolve)
        } else if kind == 5 {
            Some(WgrCmdKind::DrawWater)
        } else {
            None
        }
    }

    /// The kind with the number `kind`, if there is one.
    pub fn from_code(kind: u32) -> (k: Option<WgrCmdKind>)
        ensures
            k == WgrCmdKind::spec_from_code(kind),
    {
        match kind {
            0 => Some(WgrCmdKind::Draw2D),
            1 => Some(WgrCmdKind::Draw3D),
            2 => Some(WgrCmdKind::ClearDepth),
            3 => Some(WgrCmdKind::DrawTerrain),
            4 => Some(WgrCmdKind::Resolve),
            5 => Some(WgrCmdKind::DrawWater),
            _ => None,
        }
    }
}

/// One step of the command stream: a kind's number and the index it applies to.
#[derive(Clone, Copy, Debug, PartialEq, Eq, Structural)]
pub struct WgrCmd {
    pub kind: u32,
    pub arg: u32,
}

/// A run of terrain nodes drawn with one camera.
#[derive(Clone, Copy, Debug, PartialEq, Eq, Structural)]
pub struct WgrTerrainBatch {
    pub first_node: u32,
    pub node_count: u32,
    pub camera: u32,
}

/// A run of water nodes drawn with one camera.
#[derive(Clone, Copy, Debug, PartialEq, Eq, Structural)]
pub struct WgrWaterBatch {
    pub first_node: u32,
    pub node_count: u32,
    pub camera: u32,
}

/// Flag of a texture request: fill in the smaller mip levels by averaging.
pub const TEXTURE_GEN_MIPS: u32 = 1;

/// What became of a frame request.
#[derive(Clone, Copy, Debug, PartialEq, Eq, Structural)]
pub enum FrameOutcome {
    /// The renderer or the frame was missing.
    Missing,
    Rendered,
    Failed,
    Panicked,
}

impl FrameOutcome {
    /// The number the engine is given for the outcome.
    pub fn code(self) -> (c: i32)
        ensures
            c == 0 <==> self == FrameOutcome::Rendered,
            c == -1 <==> self == FrameOutcome::Missing,
            c == -2 <==> self == FrameOutcome::Failed,
            c == -3 <==> self == FrameOutcome::Panicked,
    {
        match self {
            FrameOutcome::Missing => -1,
            FrameOutcome::Rendered => 0,
            FrameOutcome::Failed => -2,
            FrameOutcome::Panicked => -3,
        }
    }
}

/// How the sea looks and moves.
#[derive(Clone, Copy, Debug)]
pub struct WgrWaterParams {
    pub world_origin: [u32; 2],
    pub terrain_grid: u32,
    pub sea_level: u32,
    pub hm_width: u32,
    pub hm_height: u32,
    pub time: u32,
    pub wave_amp: u32,
    pub wave_choppy: u32,
    pub wave_speed: u32,
    pub wave_scale: u32,
    pub fade_start: u32,
    pub fade_end: u32,
    pub warp_amp: u32,
    pub spec_power: u32,
    pub spec_intensity: u32,
    pub alpha: u32,
    pub shadow_dim: u32,
    pub color_ext: u32,
    pub coast_fade: u32,
    pub shallow_color: WgrVec4,
    pub deep_color: WgrVec4,
    pub foam_width: u32,
    pub foam_intensity: u32,
    pub swash_amp: u32,
    pub swash_speed: u32,
    /// Whether waves are synthesised, and from which seed.
    pub fft_control: WgrVec4,
    pub fft_wind_sea: WgrVec4,
    pub fft_cascade_lengths: WgrVec4,
}

/// The sky: where sun and moon stand, what the air is like, and how nights look.
#[derive(Clone, Copy, Debug)]
pub struct WgrSky {
    pub sun_dir: WgrVec4,
    pub moon_dir: WgrVec4,
    pub rayleigh: WgrVec4,
    pub mie: WgrVec4,
    pub ground_albedo: WgrVec4,
    /// The third and fourth are the planet's radius and the air's thickness.
    pub params: WgrVec4,
    /// The first switches the sky on; the fourth is how much ozone there is.
    pub control: WgrVec4,
    pub fog_color: WgrVec4,
    pub night_zenith: WgrVec4,
    pub night_horizon: WgrVec4,
    pub night_params: WgrVec4,
}

/// What is lent is as long as it says, in its own order, and nothing where there is no array.
pub proof fn what_is_lent<T>(s: WgrSlice<T>, i: int)
    requires
        s.wf(),
    ensures
        s.data is None ==> s.elements().len() == 0,
        s.data matches Some(a) ==> s.elements().len() == s.len && (0 <= i < s.len
            ==> s.elements()[i] == a@[i]),
{
}

/// Every mode has a number of its own, counted from zero in the order of the modes.
pub proof fn modes_have_numbers(a: WgrBlend, b: WgrBlend, c: WgrDepthMode, d: WgrDepthMode)
    ensures
        a.spec_code() == b.spec_code() <==> a == b,
        c.spec_code() == d.spec_code() <==> c == d,
        a.spec_code() == 0 <==> a == WgrBlend::Opaque,
        a.spec_code() == 1 <==> a == WgrBlend::Alpha,
        a.spec_code() == 2 <==> a == WgrBlend::Additive,
        a.spec_code() == 3 <==> a == WgrBlend::Shadow,
        c.spec_code() == 0 <==> c == WgrDepthMode::Off,
        c.spec_code() == 1 <==> c == WgrDepthMode::Test,
        c.spec_code() == 2 <==> c == WgrDepthMode::TestWrite,
{
}

} // verus!
