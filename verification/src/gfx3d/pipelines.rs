use crate::desc::{BlendComponent, BlendFactor, BlendState, DepthCompare};
use crate::ffi::{WgrBlend, WgrDepthMode};
use crate::gfx3d::mesh::{Offset, PipelineKey};
use crate::index::{GroupKey, KeyIndex};
use vstd::prelude::*;

verus! {

/// How a blend mode combines colours; nothing for opaque draws.
pub open spec fn blend_of(blend: WgrBlend) -> Option<BlendState> {
    match blend {
        WgrBlend::Opaque => None,
        WgrBlend::Alpha => Some(
            BlendState {
                color: BlendComponent {
                    src: BlendFactor::SrcAlpha,
                    dst: BlendFactor::OneMinusSrcAlpha,
                },
                alpha: BlendComponent { src: BlendFactor::One, dst: BlendFactor::OneMinusSrcAlpha },
            },
        ),
        WgrBlend::Additive => Some(
            BlendState {
                color: BlendComponent { src: BlendFactor::SrcAlpha, dst: BlendFactor::One },
                alpha: BlendComponent { src: BlendFactor::One, dst: BlendFactor::OneMinusSrcAlpha },
            },
        ),
        WgrBlend::Shadow => Some(
            BlendState {
                color: BlendComponent {
                    src: BlendFactor::Zero,
                    dst: BlendFactor::OneMinusSrcAlpha,
                },
                alpha: BlendComponent { src: BlendFactor::One, dst: BlendFactor::Zero },
            },
        ),
    }
}

/// How a blend mode combines colours; nothing for opaque draws.
pub fn blend_state(blend: WgrBlend) -> (b: Option<BlendState>)
    ensures
        b == blend_of(blend),
{
    match blend {
        WgrBlend::Opaque => None,
        WgrBlend::Alpha => Some(
            BlendState {
                color: BlendComponent {
                    src: BlendFactor::SrcAlpha,
                    dst: BlendFactor::OneMinusSrcAlpha,
                },
                alpha: BlendComponent { src: BlendFactor::One, dst: BlendFactor::OneMinusSrcAlpha },
            },
        ),
        WgrBlend::Additive => Some(
            BlendState {
                color: BlendComponent { src: BlendFactor::SrcAlpha, dst: BlendFactor::One },
                alpha: BlendComponent { src: BlendFactor::One, dst: BlendFactor::OneMinusSrcAlpha },
            },
        ),
        WgrBlend::Shadow => Some(
            BlendState {
                color: BlendComponent {
                    src: BlendFactor::Zero,
                    dst: BlendFactor::OneMinusSrcAlpha,
                },
                alpha: BlendComponent { src: BlendFactor::One, dst: BlendFactor::Zero },
            },
        ),
    }
}

/// The constant depth bias of shadow polygons.
pub const SHADOW_DEPTH_BIAS: i32 = 64;

/// A variant of the mesh pipeline.
#[derive(Clone, Copy, Debug, PartialEq, Eq, Structural)]
pub struct MeshPipelineDesc {
    /// Vertices carry bones, and the bone matrices stand in place of the world matrices.
    pub skinned: bool,
    pub depth_compare: DepthCompare,
    pub depth_write: bool,
    pub blend: Option<BlendState>,
    /// A pixel is drawn only where the stencil is zero, and counts it up.
    pub once_per_pixel: bool,
    /// Constant depth bias; with it goes a slope scale of one.
    pub depth_bias: i32,
    /// How many units the vertices are moved towards the camera: of the decal unit, or of the
    /// overlay unit.
    pub decal_units: u32,
    pub zbias_units: u32,
    pub is_shadow: bool,
    pub alpha_ref: u32,
}

/// The variant for `key`. Nearer is larger in the depth buffer.
pub open spec fn pipeline_of(key: PipelineKey) -> MeshPipelineDesc {
    let shadow = key.blend == WgrBlend::Shadow;
    MeshPipelineDesc {
        skinned: key.skinned,
        depth_compare: if key.depth == WgrDepthMode::Off {
            DepthCompare::Always
        } else {
            DepthCompare::GreaterEqual
        },
        depth_write: key.depth == WgrDepthMode::TestWrite,
        blend: blend_of(key.blend),
        once_per_pixel: shadow,
        depth_bias: if key.offset == Offset::Shadow {
            SHADOW_DEPTH_BIAS
        } else {
            0
        },
        decal_units: if key.offset == Offset::Decal {
            1
        } else {
            0
        },
        zbias_units: match key.offset {
            Offset::ZBias(level) => level as u32,
            _ => 0,
        },
        is_shadow: shadow,
        alpha_ref: key.alpha_ref,
    }
}

/// The variant for `key`.
pub fn describe_pipeline(key: &PipelineKey) -> (d: MeshPipelineDesc)
    ensures
        d == pipeline_of(*key),
        key.depth == WgrDepthMode::Off ==> d.depth_compare == DepthCompare::Always
            && !d.depth_write,
        key.depth == WgrDepthMode::Test ==> d.depth_compare == DepthCompare::GreaterEqual
            && !d.depth_write,
        key.depth == WgrDepthMode::TestWrite ==> d.depth_compare == DepthCompare::GreaterEqual
            && d.depth_write,
        d.blend is None <==> key.blend == WgrBlend::Opaque,
        d.once_per_pixel <==> key.blend == WgrBlend::Shadow,
        d.is_shadow <==> key.blend == WgrBlend::Shadow,
        d.skinned == key.skinned,
        d.alpha_ref == key.alpha_ref,
{
    let shadow: bool = key.blend == WgrBlend::Shadow;
    MeshPipelineDesc {
        skinned: key.skinned,
        depth_compare: if key.depth == WgrDepthMode::Off {
            DepthCompare::Always
        } else {
            DepthCompare::GreaterEqual
        },
        depth_write: key.depth == WgrDepthMode::TestWrite,
        blend: blend_state(key.blend),
        once_per_pixel: shadow,
        depth_bias: if key.offset == Offset::Shadow {
            SHADOW_DEPTH_BIAS
        } else {
            0
        },
        decal_units: if key.offset == Offset::Decal {
            1
        } else {
            0
        },
        zbias_units: match key.offset {
            Offset::ZBias(level) => level as u32,
            _ => 0,
        },
        is_shadow: shadow,
        alpha_ref: key.alpha_ref,
    }
}

spec fn offset_code(offset: Offset) -> u32 {
    match offset {
        Offset::Plain => 0,
        Offset::Decal => 1,
        Offset::Shadow => 2,
        Offset::ZBias(level) => (level + 3) as u32,
    }
}

/// The key as plain words.
spec fn key_words(key: PipelineKey) -> GroupKey {
    (
        0,
        key.blend.spec_code(),
        key.depth.spec_code(),
        0,
        offset_code(key.offset),
        key.alpha_ref,
        if key.skinned {
            1
        } else {
            0
        },
    )
}

fn words_of(key: &PipelineKey) -> (w: GroupKey)
    ensures
        w == key_words(*key),
{
    let offset: u32 = match key.offset {
        Offset::Plain => 0,
        Offset::Decal => 1,
        Offset::Shadow => 2,
        Offset::ZBias(level) => level as u32 + 3,
    };
    (
        0,
        key.blend.code(),
        key.depth.code(),
        0,
        offset,
        key.alpha_ref,
        if key.skinned {
            1
        } else {
            0
        },
    )
}

proof fn words_tell_keys_apart(a: PipelineKey, b: PipelineKey)
    ensures
        key_words(a) == key_words(b) ==> a == b,
{
}

/// The variants built so far, each at the position it was built.
pub struct PipelineCache {
    index: KeyIndex,
    keys: Vec<PipelineKey>,
}

impl View for PipelineCache {
    type V = Seq<PipelineKey>;

    closed spec fn view(&self) -> Seq<PipelineKey> {
        self.keys@
    }
}

impl PipelineCache {
    /// No variant is there twice, and every one is found.
    pub closed spec fn wf(&self) -> bool {
        &&& self@.no_duplicates()
        &&& forall|i: int|
            0 <= i < self@.len() ==> self.index@.dom().contains(key_words(#[trigger] self@[i]))
                && self.index@[key_words(self@[i])] == i
        &&& forall|w: GroupKey| #[trigger]
            self.index@.dom().contains(w) ==> self.index@[w] < self@.len() && key_words(
                self@[self.index@[w] as int],
            ) == w
    }

    /// No variant is there twice.
    pub proof fn keys_are_distinct(&self)
        requires
            self.wf(),
        ensures
            self@.no_duplicates(),
    {
    }

    /// No variants.
    pub fn new() -> (c: PipelineCache)
        ensures
            c.wf(),
            c@.len() == 0,
    {
        PipelineCache { index: KeyIndex::new(), keys: Vec::new() }
    }

    /// The position of the variant for `key`, if it was built.
    pub fn find(&self, key: &PipelineKey) -> (i: Option<usize>)
        requires
            self.wf(),
        ensures
            i is Some <==> self@.contains(*key),
            i matches Some(p) ==> p < self@.len() && self@[p as int] == *key,
    {
        let w = words_of(key);
        let found = self.index.get(&w);
        proof {
            match found {
                Some(p) => {
                    words_tell_keys_apart(self@[p as int], *key);
                },
                None => {
                    if self@.contains(*key) {
                        let i = choose|i: int| 0 <= i < self@.len() && self@[i] == *key;
                        assert(self.index@.dom().contains(key_words(self@[i])));
                    }
                },
            }
        }
        found
    }

    /// Builds the variant for `key` if it was not built yet; says what has to be made, for the
    /// next position.
    pub fn ensure_pipeline(&mut self, key: &PipelineKey) -> (d: Option<MeshPipelineDesc>)
        requires
            old(self).wf(),
        ensures
            final(self).wf(),
            d is None <==> old(self)@.contains(*key),
            d is None ==> final(self)@ == old(self)@,
            d matches Some(p) ==> p == pipeline_of(*key) && final(self)@ == old(self)@.push(*key),
            final(self)@.contains(*key),
    {
        if self.find(key).is_some() {
            return None;
        }
        let ghost before = *self;
        let n: usize = self.keys.len();
        self.index.insert(words_of(key), n);
        self.keys.push(*key);
        proof {
            assert(self@[n as int] == *key);
            assert forall|i: int| 0 <= i < self@.len() implies self.index@.dom().contains(
                key_words(#[trigger] self@[i]),
            ) && self.index@[key_words(self@[i])] == i by {
                if i < n {
                    assert(self@[i] == before@[i]);
                    words_tell_keys_apart(self@[i], *key);
                }
            }
            assert forall|w: GroupKey| #[trigger] self.index@.dom().contains(w) implies
                self.index@[w] < self@.len() && key_words(self@[self.index@[w] as int]) == w by {
                if w != key_words(*key) {
                    assert(before.index@.dom().contains(w));
                    assert(self@[before.index@[w] as int] == before@[before.index@[w] as int]);
                }
            }
        }
        Some(describe_pipeline(key))
    }
}

} // verus!
