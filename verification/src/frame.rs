use crate::bits::{eq, float_eq, float_lt, lt};
use crate::ffi::{WgrDraw3D, WgrTerrainBatch, WgrWaterBatch};
use crate::gfx3d::plan::Plan3dOp;
use crate::math::{larger, max_u32};
use crate::startup::Settings;
use vstd::prelude::*;

verus! {

/// Where a pass draws: the scene's own target, or what the screen shows. Without a target of
/// its own the scene is drawn straight to the screen.
#[derive(Clone, Copy, Debug, PartialEq, Eq, Structural)]
pub enum FrameTarget {
    Scene,
    Display,
}

/// Which depth buffer a pass is given: the scene's, or, where a pixel of the scene has several
/// samples, the one that goes with the screen.
#[derive(Clone, Copy, Debug, PartialEq, Eq, Structural)]
pub enum DepthTarget {
    Scene,
    Display,
}

/// What a pass does with depth and stencil.
#[derive(Clone, Copy, Debug, PartialEq, Eq, Structural)]
pub enum DepthUse {
    /// It has none.
    Without,
    /// It starts from nothing drawn.
    Clear(DepthTarget),
    /// It goes on with what is there.
    Load(DepthTarget),
    /// It only reads.
    ReadOnly(DepthTarget),
}

/// What a pass is for.
#[derive(Clone, Copy, Debug, PartialEq, Eq, Structural)]
pub enum PassKind {
    Sky,
    /// Depth and normals, ahead of colour.
    Prepass,
    /// Everything but water and flat batches; depth may be complete already.
    Color { depth_complete: bool },
    Water,
    Flat,
    Overlay,
}

/// A render pass.
#[derive(Clone, Copy, Debug, PartialEq, Eq, Structural)]
pub struct PassDesc {
    pub kind: PassKind,
    pub target: FrameTarget,
    /// Colour starts from the clear colour instead of what is there.
    pub clear: bool,
    pub depth: DepthUse,
}

/// One step of a frame.
#[derive(Clone, Copy, Debug, PartialEq, Eq, Structural)]
pub enum FrameStep {
    SkinBake,
    Cull,
    CullShadows,
    Shadows,
    TerrainShadow,
    /// The sky's tables and fog volume, seen from a camera.
    SkyTables { camera: usize },
    Begin(PassDesc),
    SkyDraw,
    /// What the device culled by itself.
    World { camera_offset: u32 },
    Mesh { draw: u32, base: u32, count: u32, prepass: bool },
    /// What is known to be bound no longer is.
    Forget,
    Ground { camera_offset: u32, first_node: u32, node_count: u32, prepass: bool },
    Sea { camera_offset: u32, first_node: u32, node_count: u32 },
    Flat { batch: u32, display: bool },
    CullSpheres { camera_offset: u32 },
    End,
    /// Farthest depths, and culling by them.
    Occlusion,
    /// Water is shown the scene's depth.
    LendDepth,
    /// Samples are joined.
    JoinSamples,
    Bloom,
    Exposure,
    Tonemap,
    Overlay,
}

/// What lasts from frame to frame.
pub struct Renderer {
    pub width: u32,
    pub height: u32,
    /// The scene has a target of its own, from which the screen is toned.
    pub hdr_enabled: bool,
    /// The size of that target.
    pub hdr: Option<(u32, u32)>,
    pub sample_count: u32,
    pub prepass_enabled: bool,
    pub suppress_world_objects: bool,
    pub cull_debug_draw: bool,
    /// The sky is drawn unless this is zero.
    pub sky_control: u32,
    pub bloom_intensity: u32,
    pub sky_debug: bool,
    pub sky_dbg_last: Option<(usize, usize)>,
}

/// What a frame draws from.
pub struct FrameLists<'a> {
    pub cameras: usize,
    pub camera_stride: u64,
    /// A camera is bound.
    pub cameras_bound: bool,
    pub draws3d: &'a [WgrDraw3D],
    pub batches: usize,
    pub terrain_batches: &'a [WgrTerrainBatch],
    pub water_batches: &'a [WgrWaterBatch],
    pub overlay_draws: usize,
}

/// A target of the scene's own.
#[derive(Clone, Copy, Debug, PartialEq, Eq, Structural)]
pub struct HdrTarget {
    pub width: u32,
    pub height: u32,
    pub samples: u32,
    /// It is read directly; else its samples are joined in another target first.
    pub sampled: bool,
}

/// What came of asking for the screen's next image.
#[derive(Clone, Copy, Debug, PartialEq, Eq, Structural)]
pub enum Acquired {
    Success,
    Suboptimal,
    Outdated,
    Lost,
    Timeout,
    Occluded,
    Validation,
}

/// What is done about it.
#[derive(Clone, Copy, Debug, PartialEq, Eq, Structural)]
pub enum Next {
    Draw,
    /// The frame is left out.
    Skip,
    /// The screen is set up again and the frame left out.
    Reconfigure,
    Fail,
}

/// Why a frame is not drawn.
#[derive(Clone, Copy, Debug, PartialEq, Eq, Structural)]
pub enum FrameError {
    DepthMissing,
    NormalsMissing,
}

/// The offset of a camera in the cameras' buffer.
pub open spec fn camera_offset(camera: int, stride: u64) -> u32 {
    (camera * stride) as u64 as u32
}

/// The camera that the visible world is drawn with: the ground's, else the first mesh's, else
/// the first.
pub open spec fn main_camera(terrain: Seq<WgrTerrainBatch>, draws: Seq<WgrDraw3D>) -> u32 {
    if terrain.len() > 0 {
        terrain[0].camera
    } else if draws.len() > 0 {
        draws[0].camera
    } else {
        0
    }
}

/// The camera that the visible world is drawn with.
pub fn find_main_camera(terrain: &[WgrTerrainBatch], draws: &[WgrDraw3D]) -> (c: u32)
    ensures
        c == main_camera(terrain@, draws@),
{
    if terrain.len() > 0 {
        terrain[0].camera
    } else if draws.len() > 0 {
        draws[0].camera
    } else {
        0
    }
}

/// The step ends a stretch of the plan.
pub open spec fn ends_segment(op: Plan3dOp) -> bool {
    op == Plan3dOp::ClearDepth || op == Plan3dOp::Resolve
}

/// Where the stretch that starts at `start` ends.
pub open spec fn segment_end(ops: Seq<Plan3dOp>, start: int) -> int
    decreases ops.len() - start,
{
    if start >= ops.len() || ends_segment(ops[start]) {
        start
    } else {
        segment_end(ops, start + 1)
    }
}

impl<'a> FrameLists<'a> {
    /// The offset of a camera.
    pub open spec fn offset(&self, camera: u32) -> u32 {
        camera_offset(camera as int, self.camera_stride)
    }

    /// Every camera's offset can be counted.
    pub open spec fn wf(&self) -> bool {
        self.camera_stride <= u32::MAX
    }

    /// The steps for one step of the plan, flat batches and water left out.
    pub open spec fn world_step(&self, op: Plan3dOp, prepass: bool) -> Seq<FrameStep> {
        match op {
            Plan3dOp::Draw3D { draw, base, count } => if draw < self.draws3d@.len() {
                seq![FrameStep::Mesh { draw, base, count, prepass }]
            } else {
                Seq::empty()
            },
            Plan3dOp::Terrain(arg) => if arg < self.terrain_batches@.len() && self.cameras_bound {
                let b = self.terrain_batches@[arg as int];
                seq![
                    FrameStep::Forget,
                    FrameStep::Ground {
                        camera_offset: self.offset(b.camera),
                        first_node: b.first_node,
                        node_count: b.node_count,
                        prepass,
                    },
                ]
            } else {
                seq![FrameStep::Forget]
            },
            _ => Seq::empty(),
        }
    }

    /// The steps for one water batch.
    pub open spec fn water_step(&self, op: Plan3dOp) -> Seq<FrameStep> {
        match op {
            Plan3dOp::Water(arg) => if arg < self.water_batches@.len() {
                let b = self.water_batches@[arg as int];
                seq![
                    FrameStep::Sea {
                        camera_offset: self.offset(b.camera),
                        first_node: b.first_node,
                        node_count: b.node_count,
                    },
                ]
            } else {
                Seq::empty()
            },
            _ => Seq::empty(),
        }
    }

    /// The steps for one flat batch.
    pub open spec fn flat_step(&self, op: Plan3dOp, display: bool) -> Seq<FrameStep> {
        match op {
            Plan3dOp::Draw2D(arg) => if arg < self.batches {
                seq![FrameStep::Flat { batch: arg, display }]
            } else {
                Seq::empty()
            },
            _ => Seq::empty(),
        }
    }
}

/// What `f` makes of all steps of the plan in a stretch.
pub open spec fn spread<X>(
    f: spec_fn(Plan3dOp) -> Seq<X>,
    ops: Seq<Plan3dOp>,
    from: int,
    upto: int,
) -> Seq<X>
    decreases upto - from,
{
    if upto <= from {
        Seq::empty()
    } else {
        spread(f, ops, from, upto - 1) + f(ops[upto - 1])
    }
}

/// A stretch holds a step of the kind.
pub open spec fn any_in(
    f: spec_fn(Plan3dOp) -> bool,
    ops: Seq<Plan3dOp>,
    from: int,
    upto: int,
) -> bool {
    exists|i: int| from <= i < upto && f(#[trigger] ops[i])
}

/// The step, if it is wanted.
pub open spec fn if_so(wanted: bool, step: FrameStep) -> Seq<FrameStep> {
    if wanted {
        seq![step]
    } else {
        Seq::empty()
    }
}

fn put_if(steps: &mut Vec<FrameStep>, wanted: bool, step: FrameStep)
    ensures
        final(steps)@ == old(steps)@ + if_so(wanted, step),
{
    if wanted {
        steps.push(step);
    }
    proof {
        assert(steps@ =~= old(steps)@ + if_so(wanted, step));
    }
}

impl Renderer {
    /// The depth buffer of a pass: after toning, the one that goes with the screen.
    pub open spec fn depth_target(&self, toned: bool) -> DepthTarget {
        if toned && self.sample_count > 1 {
            DepthTarget::Display
        } else {
            DepthTarget::Scene
        }
    }

    /// Depth and normals of the stretch are drawn ahead of its colour.
    pub open spec fn prepassed(&self, start: int) -> bool {
        start == 0 && self.prepass_enabled
    }

    /// What the device culled is drawn in the stretch.
    pub open spec fn draws_world(&self, start: int) -> bool {
        start == 0 && !self.suppress_world_objects
    }

    /// Depth and normals of a stretch.
    #[verifier::opaque]
    pub open spec fn prepass_steps(
        &self,
        lists: &FrameLists,
        ops: Seq<Plan3dOp>,
        start: int,
        end: int,
    ) -> Seq<FrameStep> {
        let camera = lists.offset(main_camera(lists.terrain_batches@, lists.draws3d@));
        if self.prepassed(start) {
            seq![
                FrameStep::Begin(
                    PassDesc {
                        kind: PassKind::Prepass,
                        target: FrameTarget::Scene,
                        clear: true,
                        depth: DepthUse::Clear(DepthTarget::Scene),
                    },
                ),
            ] + spread(|op: Plan3dOp| lists.world_step(op, true), ops, start, end) + if_so(
                self.draws_world(start),
                FrameStep::World { camera_offset: camera },
            ) + seq![FrameStep::End, FrameStep::Occlusion]
        } else {
            Seq::empty()
        }
    }

    /// The colour of a stretch, but for water and flat batches.
    #[verifier::opaque]
    pub open spec fn color_steps(
        &self,
        lists: &FrameLists,
        ops: Seq<Plan3dOp>,
        start: int,
        end: int,
        clear: bool,
        toned: bool,
    ) -> Seq<FrameStep> {
        let camera = lists.offset(main_camera(lists.terrain_batches@, lists.draws3d@));
        let depth = self.depth_target(toned);
        seq![
            FrameStep::Begin(
                PassDesc {
                    kind: PassKind::Color { depth_complete: self.prepassed(start) },
                    target: if toned {
                        FrameTarget::Display
                    } else {
                        FrameTarget::Scene
                    },
                    clear,
                    depth: if self.prepassed(start) {
                        DepthUse::Load(depth)
                    } else {
                        DepthUse::Clear(depth)
                    },
                },
            ),
        ] + if_so(self.draws_world(start), FrameStep::World { camera_offset: camera }) + spread(
            |op: Plan3dOp| lists.world_step(op, false),
            ops,
            start,
            end,
        ) + if_so(
            self.draws_world(start) && self.cull_debug_draw,
            FrameStep::CullSpheres { camera_offset: camera },
        ) + seq![FrameStep::End]
    }

    /// The water of a stretch.
    #[verifier::opaque]
    pub open spec fn water_steps(
        &self,
        lists: &FrameLists,
        ops: Seq<Plan3dOp>,
        start: int,
        end: int,
        toned: bool,
    ) -> Seq<FrameStep> {
        if any_in(|op: Plan3dOp| op is Water, ops, start, end) && !toned {
            seq![FrameStep::LendDepth] + if lists.cameras_bound {
                seq![
                    FrameStep::Begin(
                        PassDesc {
                            kind: PassKind::Water,
                            target: FrameTarget::Scene,
                            clear: false,
                            depth: DepthUse::ReadOnly(DepthTarget::Scene),
                        },
                    ),
                ] + spread(|op: Plan3dOp| lists.water_step(op), ops, start, end) + seq![
                    FrameStep::End,
                ]
            } else {
                Seq::empty()
            }
        } else {
            Seq::empty()
        }
    }

    /// The flat batches of a stretch.
    #[verifier::opaque]
    pub open spec fn flat_steps(
        &self,
        lists: &FrameLists,
        ops: Seq<Plan3dOp>,
        start: int,
        end: int,
        toned: bool,
    ) -> Seq<FrameStep> {
        if any_in(|op: Plan3dOp| op is Draw2D, ops, start, end) {
            seq![
                FrameStep::Begin(
                    PassDesc {
                        kind: PassKind::Flat,
                        target: if toned {
                            FrameTarget::Display
                        } else {
                            FrameTarget::Scene
                        },
                        clear: false,
                        depth: DepthUse::Load(self.depth_target(toned)),
                    },
                ),
            ] + spread(|op: Plan3dOp| lists.flat_step(op, toned), ops, start, end) + seq![
                FrameStep::End,
            ]
        } else {
            Seq::empty()
        }
    }

    /// All of a stretch.
    #[verifier::opaque]
    pub open spec fn segment_steps(
        &self,
        lists: &FrameLists,
        ops: Seq<Plan3dOp>,
        start: int,
        end: int,
        clear: bool,
        toned: bool,
    ) -> Seq<FrameStep> {
        self.prepass_steps(lists, ops, start, end) + self.color_steps(
            lists,
            ops,
            start,
            end,
            clear,
            toned,
        ) + self.water_steps(lists, ops, start, end, toned) + self.flat_steps(
            lists,
            ops,
            start,
            end,
            toned,
        )
    }

    /// Toning the scene for the screen.
    pub open spec fn tonemap_steps(&self) -> Seq<FrameStep> {
        if_so(self.hdr is Some && self.sample_count > 1, FrameStep::JoinSamples) + if_so(
            float_lt(0, self.bloom_intensity),
            FrameStep::Bloom,
        ) + seq![FrameStep::Exposure, FrameStep::Tonemap]
    }

    /// The stretches from `start` on, and toning where it has not happened yet.
    pub open spec fn stretches(
        &self,
        lists: &FrameLists,
        ops: Seq<Plan3dOp>,
        start: int,
        clear: bool,
        toned: bool,
    ) -> Seq<FrameStep>
        decreases ops.len() - start,
    {
        let end = segment_end(ops, start);
        let steps = self.segment_steps(lists, ops, start, end, clear, toned);
        if end < start || end >= ops.len() {
            steps + if self.hdr_enabled && !toned {
                self.tonemap_steps()
            } else {
                Seq::empty()
            }
        } else {
            let tones = ops[end] == Plan3dOp::Resolve && self.hdr_enabled && !toned;
            steps + (if tones {
                self.tonemap_steps()
            } else {
                Seq::empty()
            }) + self.stretches(lists, ops, end + 1, false, toned || tones)
        }
    }

    /// The sky is drawn.
    pub open spec fn draws_sky(&self, lists: &FrameLists) -> bool {
        !float_eq(self.sky_control, 0) && main_camera(lists.terrain_batches@, lists.draws3d@)
            < lists.cameras
    }

    /// What comes before the plan's own steps.
    pub open spec fn opening_steps(&self, lists: &FrameLists) -> Seq<FrameStep> {
        seq![FrameStep::SkinBake, FrameStep::Cull, FrameStep::CullShadows, FrameStep::Shadows]
            + if_so(lists.cameras > 0, FrameStep::TerrainShadow) + if self.draws_sky(lists) {
            seq![
                FrameStep::SkyTables {
                    camera: main_camera(lists.terrain_batches@, lists.draws3d@) as usize,
                },
                FrameStep::Begin(
                    PassDesc {
                        kind: PassKind::Sky,
                        target: FrameTarget::Scene,
                        clear: true,
                        depth: DepthUse::Without,
                    },
                ),
                FrameStep::SkyDraw,
                FrameStep::End,
            ]
        } else {
            Seq::empty()
        }
    }

    /// The overlay, drawn over everything.
    pub open spec fn overlay_steps(&self, lists: &FrameLists) -> Seq<FrameStep> {
        if lists.overlay_draws > 0 {
            seq![
                FrameStep::Begin(
                    PassDesc {
                        kind: PassKind::Overlay,
                        target: FrameTarget::Display,
                        clear: false,
                        depth: DepthUse::Without,
                    },
                ),
                FrameStep::Overlay,
                FrameStep::End,
            ]
        } else {
            Seq::empty()
        }
    }

    /// A whole frame.
    pub open spec fn frame_steps(&self, lists: &FrameLists, ops: Seq<Plan3dOp>) -> Seq<FrameStep> {
        self.opening_steps(lists) + self.stretches(lists, ops, 0, !self.draws_sky(lists), false)
            + self.overlay_steps(lists)
    }
}

fn find_segment_end(ops: &[Plan3dOp], start: usize) -> (end: usize)
    requires
        start <= ops@.len(),
    ensures
        end == segment_end(ops@, start as int),
        start <= end <= ops@.len(),
{
    let mut i: usize = start;
    while i < ops.len()
        invariant_except_break
            segment_end(ops@, start as int) == segment_end(ops@, i as int),
        invariant
            start <= i <= ops@.len(),
        ensures
            i == segment_end(ops@, start as int),
        decreases ops@.len() - i,
    {
        match ops[i] {
            Plan3dOp::ClearDepth | Plan3dOp::Resolve => {
                break;
            },
            _ => {
                i = i + 1;
            },
        }
    }
    i
}

impl<'a> FrameLists<'a> {
    fn find_offset(&self, camera: u32) -> (o: u32)
        requires
            self.wf(),
        ensures
            o == self.offset(camera),
    {
        proof {
            assert(camera * self.camera_stride <= 0xffff_ffff * 0xffff_ffff) by (nonlinear_arith)
                requires
                    camera <= 0xffff_ffff,
                    self.camera_stride <= 0xffff_ffff,
            ;
        }
        (camera as u64 * self.camera_stride) as u32
    }

    fn put_world(
        &self,
        ops: &[Plan3dOp],
        start: usize,
        end: usize,
        prepass: bool,
        steps: &mut Vec<FrameStep>,
    )
        requires
            self.wf(),
            start <= end <= ops@.len(),
        ensures
            final(steps)@ == old(steps)@ + spread(
                |op: Plan3dOp| self.world_step(op, prepass),
                ops@,
                start as int,
                end as int,
            ),
    {
        let ghost f = |op: Plan3dOp| self.world_step(op, prepass);
        let ghost before = steps@;
        let mut i: usize = start;
        proof {
            assert(steps@ =~= before + spread(f, ops@, start as int, i as int));
        }
        while i < end
            invariant
                self.wf(),
                start <= i <= end <= ops@.len(),
                f == (|op: Plan3dOp| self.world_step(op, prepass)),
                steps@ == before + spread(f, ops@, start as int, i as int),
            decreases end - i,
        {
            let ghost entry = steps@;
            match ops[i] {
                Plan3dOp::Draw3D { draw, base, count } => {
                    if (draw as usize) < self.draws3d.len() {
                        steps.push(FrameStep::Mesh { draw, base, count, prepass });
                    }
                },
                Plan3dOp::Terrain(arg) => {
                    steps.push(FrameStep::Forget);
                    if (arg as usize) < self.terrain_batches.len() && self.cameras_bound {
                        let b: WgrTerrainBatch = self.terrain_batches[arg as usize];
                        steps.push(
                            FrameStep::Ground {
                                camera_offset: self.find_offset(b.camera),
                                first_node: b.first_node,
                                node_count: b.node_count,
                                prepass,
                            },
                        );
                    }
                },
                _ => {},
            }
            proof {
                assert(steps@ =~= entry + f(ops@[i as int]));
                assert(spread(f, ops@, start as int, i + 1) == spread(
                    f,
                    ops@,
                    start as int,
                    i as int,
                ) + f(ops@[i as int]));
                assert(steps@ =~= before + spread(f, ops@, start as int, i + 1));
            }
            i = i + 1;
        }
    }

    fn put_water(&self, ops: &[Plan3dOp], start: usize, end: usize, steps: &mut Vec<FrameStep>)
        requires
            self.wf(),
            start <= end <= ops@.len(),
        ensures
            final(steps)@ == old(steps)@ + spread(
                |op: Plan3dOp| self.water_step(op),
                ops@,
                start as int,
                end as int,
            ),
    {
        let ghost f = |op: Plan3dOp| self.water_step(op);
        let ghost before = steps@;
        let mut i: usize = start;
        proof {
            assert(steps@ =~= before + spread(f, ops@, start as int, i as int));
        }
        while i < end
            invariant
                self.wf(),
                start <= i <= end <= ops@.len(),
                f == (|op: Plan3dOp| self.water_step(op)),
                steps@ == before + spread(f, ops@, start as int, i as int),
            decreases end - i,
        {
            let ghost entry = steps@;
            if let Plan3dOp::Water(arg) = ops[i] {
                if (arg as usize) < self.water_batches.len() {
                    let b: WgrWaterBatch = self.water_batches[arg as usize];
                    steps.push(
                        FrameStep::Sea {
                            camera_offset: self.find_offset(b.camera),
                            first_node: b.first_node,
                            node_count: b.node_count,
                        },
                    );
                }
            }
            proof {
                assert(steps@ =~= entry + f(ops@[i as int]));
                assert(steps@ =~= before + spread(f, ops@, start as int, i + 1));
            }
            i = i + 1;
        }
    }

    fn put_flat(
        &self,
        ops: &[Plan3dOp],
        start: usize,
        end: usize,
        display: bool,
        steps: &mut Vec<FrameStep>,
    )
        requires
            start <= end <= ops@.len(),
        ensures
            final(steps)@ == old(steps)@ + spread(
                |op: Plan3dOp| self.flat_step(op, display),
                ops@,
                start as int,
                end as int,
            ),
    {
        let ghost f = |op: Plan3dOp| self.flat_step(op, display);
        let ghost before = steps@;
        let mut i: usize = start;
        proof {
            assert(steps@ =~= before + spread(f, ops@, start as int, i as int));
        }
        while i < end
            invariant
                start <= i <= end <= ops@.len(),
                f == (|op: Plan3dOp| self.flat_step(op, display)),
                steps@ == before + spread(f, ops@, start as int, i as int),
            decreases end - i,
        {
            let ghost entry = steps@;
            if let Plan3dOp::Draw2D(arg) = ops[i] {
                if (arg as usize) < self.batches {
                    steps.push(FrameStep::Flat { batch: arg, display });
                }
            }
            proof {
                assert(steps@ =~= entry + f(ops@[i as int]));
                assert(steps@ =~= before + spread(f, ops@, start as int, i + 1));
            }
            i = i + 1;
        }
    }
}

fn has_water(ops: &[Plan3dOp], start: usize, end: usize) -> (any: bool)
    requires
        start <= end <= ops@.len(),
    ensures
        any == any_in(|op: Plan3dOp| op is Water, ops@, start as int, end as int),
{
    let mut i: usize = start;
    while i < end
        invariant
            start <= i <= end <= ops@.len(),
            forall|k: int| start <= k < i ==> !(#[trigger] ops@[k] is Water),
        decreases end - i,
    {
        if let Plan3dOp::Water(_) = ops[i] {
            proof {
                let f = |op: Plan3dOp| op is Water;
                assert(f(ops@[i as int]));
            }
            return true;
        }
        i = i + 1;
    }
    false
}

fn has_flat(ops: &[Plan3dOp], start: usize, end: usize) -> (any: bool)
    requires
        start <= end <= ops@.len(),
    ensures
        any == any_in(|op: Plan3dOp| op is Draw2D, ops@, start as int, end as int),
{
    let mut i: usize = start;
    while i < end
        invariant
            start <= i <= end <= ops@.len(),
            forall|k: int| start <= k < i ==> !(#[trigger] ops@[k] is Draw2D),
        decreases end - i,
    {
        if let Plan3dOp::Draw2D(_) = ops[i] {
            proof {
                let f = |op: Plan3dOp| op is Draw2D;
                assert(f(ops@[i as int]));
            }
            return true;
        }
        i = i + 1;
    }
    false
}

impl Renderer {
    fn find_depth_target(&self, toned: bool) -> (d: DepthTarget)
        ensures
            d == self.depth_target(toned),
    {
        if toned && self.sample_count > 1 {
            DepthTarget::Display
        } else {
            DepthTarget::Scene
        }
    }

    fn put_prepass(
        &self,
        lists: &FrameLists,
        ops: &[Plan3dOp],
        start: usize,
        end: usize,
        steps: &mut Vec<FrameStep>,
    )
        requires
            lists.wf(),
            start <= end <= ops@.len(),
        ensures
            final(steps)@ == old(steps)@ + self.prepass_steps(
                lists,
                ops@,
                start as int,
                end as int,
            ),
    {
        let ghost before = steps@;
        if start == 0 && self.prepass_enabled {
            let camera: u32 = lists.find_offset(
                find_main_camera(lists.terrain_batches, lists.draws3d),
            );
            steps.push(
                FrameStep::Begin(
                    PassDesc {
                        kind: PassKind::Prepass,
                        target: FrameTarget::Scene,
                        clear: true,
                        depth: DepthUse::Clear(DepthTarget::Scene),
                    },
                ),
            );
            lists.put_world(ops, start, end, true, steps);
            put_if(
                steps,
                !self.suppress_world_objects,
                FrameStep::World { camera_offset: camera },
            );
            steps.push(FrameStep::End);
            steps.push(FrameStep::Occlusion);
        }
        proof {
            reveal(Renderer::prepass_steps);
            assert(steps@ =~= before + self.prepass_steps(lists, ops@, start as int, end as int));
        }
    }

    fn put_color(
        &self,
        lists: &FrameLists,
        ops: &[Plan3dOp],
        start: usize,
        end: usize,
        clear: bool,
        toned: bool,
        steps: &mut Vec<FrameStep>,
    )
        requires
            lists.wf(),
            start <= end <= ops@.len(),
        ensures
            final(steps)@ == old(steps)@ + self.color_steps(
                lists,
                ops@,
                start as int,
                end as int,
                clear,
                toned,
            ),
    {
        let ghost before = steps@;
        let camera: u32 = lists.find_offset(find_main_camera(lists.terrain_batches, lists.draws3d));
        let depth: DepthTarget = self.find_depth_target(toned);
        let prepassed: bool = start == 0 && self.prepass_enabled;
        let world: bool = start == 0 && !self.suppress_world_objects;
        steps.push(
            FrameStep::Begin(
                PassDesc {
                    kind: PassKind::Color { depth_complete: prepassed },
                    target: if toned {
                        FrameTarget::Display
                    } else {
                        FrameTarget::Scene
                    },
                    clear,
                    depth: if prepassed {
                        DepthUse::Load(depth)
                    } else {
                        DepthUse::Clear(depth)
                    },
                },
            ),
        );
        put_if(steps, world, FrameStep::World { camera_offset: camera });
        lists.put_world(ops, start, end, false, steps);
        put_if(
            steps,
            world && self.cull_debug_draw,
            FrameStep::CullSpheres { camera_offset: camera },
        );
        steps.push(FrameStep::End);
        proof {
            reveal(Renderer::color_steps);
            assert(steps@ =~= before + self.color_steps(
                lists,
                ops@,
                start as int,
                end as int,
                clear,
                toned,
            ));
        }
    }

    fn put_water(
        &self,
        lists: &FrameLists,
        ops: &[Plan3dOp],
        start: usize,
        end: usize,
        toned: bool,
        steps: &mut Vec<FrameStep>,
    )
        requires
            lists.wf(),
            start <= end <= ops@.len(),
        ensures
            final(steps)@ == old(steps)@ + self.water_steps(
                lists,
                ops@,
                start as int,
                end as int,
                toned,
            ),
    {
        let ghost before = steps@;
        if has_water(ops, start, end) && !toned {
            steps.push(FrameStep::LendDepth);
            if lists.cameras_bound {
                steps.push(
                    FrameStep::Begin(
                        PassDesc {
                            kind: PassKind::Water,
                            target: FrameTarget::Scene,
                            clear: false,
                            depth: DepthUse::ReadOnly(DepthTarget::Scene),
                        },
                    ),
                );
                lists.put_water(ops, start, end, steps);
                steps.push(FrameStep::End);
            }
        }
        proof {
            reveal(Renderer::water_steps);
            assert(steps@ =~= before + self.water_steps(
                lists,
                ops@,
                start as int,
                end as int,
                toned,
            ));
        }
    }

    fn put_flat(
        &self,
        lists: &FrameLists,
        ops: &[Plan3dOp],
        start: usize,
        end: usize,
        toned: bool,
        steps: &mut Vec<FrameStep>,
    )
        requires
            start <= end <= ops@.len(),
        ensures
            final(steps)@ == old(steps)@ + self.flat_steps(
                lists,
                ops@,
                start as int,
                end as int,
                toned,
            ),
    {
        let ghost before = steps@;
        if has_flat(ops, start, end) {
            let depth: DepthTarget = self.find_depth_target(toned);
            steps.push(
                FrameStep::Begin(
                    PassDesc {
                        kind: PassKind::Flat,
                        target: if toned {
                            FrameTarget::Display
                        } else {
                            FrameTarget::Scene
                        },
                        clear: false,
                        depth: DepthUse::Load(depth),
                    },
                ),
            );
            lists.put_flat(ops, start, end, toned, steps);
            steps.push(FrameStep::End);
        }
        proof {
            reveal(Renderer::flat_steps);
            assert(steps@ =~= before + self.flat_steps(
                lists,
                ops@,
                start as int,
                end as int,
                toned,
            ));
        }
    }

    fn put_segment(
        &self,
        lists: &FrameLists,
        ops: &[Plan3dOp],
        start: usize,
        end: usize,
        clear: bool,
        toned: bool,
        steps: &mut Vec<FrameStep>,
    )
        requires
            lists.wf(),
            start <= end <= ops@.len(),
        ensures
            final(steps)@ == old(steps)@ + self.segment_steps(
                lists,
                ops@,
                start as int,
                end as int,
                clear,
                toned,
            ),
    {
        let ghost before = steps@;
        self.put_prepass(lists, ops, start, end, steps);
        self.put_color(lists, ops, start, end, clear, toned, steps);
        self.put_water(lists, ops, start, end, toned, steps);
        self.put_flat(lists, ops, start, end, toned, steps);
        proof {
            reveal(Renderer::segment_steps);
            assert(steps@ =~= before + self.segment_steps(
                lists,
                ops@,
                start as int,
                end as int,
                clear,
                toned,
            ));
        }
    }

    fn put_tonemap(&self, steps: &mut Vec<FrameStep>)
        ensures
            final(steps)@ == old(steps)@ + self.tonemap_steps(),
    {
        let ghost before = steps@;
        put_if(steps, self.hdr.is_some() && self.sample_count > 1, FrameStep::JoinSamples);
        put_if(steps, lt(0, self.bloom_intensity), FrameStep::Bloom);
        steps.push(FrameStep::Exposure);
        steps.push(FrameStep::Tonemap);
        proof {
            assert(steps@ =~= before + self.tonemap_steps());
        }
    }

    fn put_stretches(
        &self,
        lists: &FrameLists,
        ops: &[Plan3dOp],
        clear_first: bool,
        steps: &mut Vec<FrameStep>,
    )
        requires
            lists.wf(),
            ops@.len() < usize::MAX,
        ensures
            final(steps)@ == old(steps)@ + self.stretches(lists, ops@, 0, clear_first, false),
    {
        let ghost before = steps@;
        let ghost all = self.stretches(lists, ops@, 0, clear_first, false);
        let mut clear: bool = clear_first;
        let mut toned: bool = false;
        let mut start: usize = 0;
        let mut done: bool = false;
        while !done
            invariant
                lists.wf(),
                ops@.len() < usize::MAX,
                start <= ops@.len(),
                !done ==> before + all == steps@ + self.stretches(
                    lists,
                    ops@,
                    start as int,
                    clear,
                    toned,
                ),
                done ==> before + all == steps@,
            decreases (if done { 0int } else { ops@.len() - start + 1 }),
        {
            let ghost entry = steps@;
            let end: usize = find_segment_end(ops, start);
            self.put_segment(lists, ops, start, end, clear, toned, steps);
            if end >= ops.len() {
                if self.hdr_enabled && !toned {
                    self.put_tonemap(steps);
                }
                proof {
                    assert(steps@ =~= entry + self.stretches(
                        lists,
                        ops@,
                        start as int,
                        clear,
                        toned,
                    ));
                }
                done = true;
            } else {
                let tones: bool = match ops[end] {
                    Plan3dOp::Resolve => self.hdr_enabled && !toned,
                    _ => false,
                };
                if tones {
                    self.put_tonemap(steps);
                }
                proof {
                    let rest = self.stretches(lists, ops@, end + 1, false, toned || tones);
                    assert(steps@ + rest =~= entry + self.stretches(
                        lists,
                        ops@,
                        start as int,
                        clear,
                        toned,
                    ));
                }
                toned = toned || tones;
                clear = false;
                start = end + 1;
            }
        }
        proof {
            assert(steps@ =~= before + all);
        }
    }

    fn put_opening(&self, lists: &FrameLists, steps: &mut Vec<FrameStep>) -> (sky: bool)
        ensures
            final(steps)@ == old(steps)@ + self.opening_steps(lists),
            sky == self.draws_sky(lists),
    {
        let ghost before = steps@;
        steps.push(FrameStep::SkinBake);
        steps.push(FrameStep::Cull);
        steps.push(FrameStep::CullShadows);
        steps.push(FrameStep::Shadows);
        put_if(steps, lists.cameras > 0, FrameStep::TerrainShadow);
        let camera: usize = find_main_camera(lists.terrain_batches, lists.draws3d) as usize;
        let sky: bool = !eq(self.sky_control, 0) && camera < lists.cameras;
        if sky {
            steps.push(FrameStep::SkyTables { camera });
            steps.push(
                FrameStep::Begin(
                    PassDesc {
                        kind: PassKind::Sky,
                        target: FrameTarget::Scene,
                        clear: true,
                        depth: DepthUse::Without,
                    },
                ),
            );
            steps.push(FrameStep::SkyDraw);
            steps.push(FrameStep::End);
        }
        proof {
            assert(steps@ =~= before + self.opening_steps(lists));
        }
        sky
    }

    /// Draws a frame: the steps in which the device is told.
    pub fn render_frame(
        &self,
        lists: &FrameLists,
        ops: &[Plan3dOp],
        has_depth: bool,
        has_normals: bool,
    ) -> (r: Result<Vec<FrameStep>, FrameError>)
        requires
            lists.wf(),
            ops@.len() < usize::MAX,
        ensures
            !has_depth ==> r == Err::<Vec<FrameStep>, FrameError>(FrameError::DepthMissing),
            has_depth && self.prepass_enabled && !has_normals ==> r == Err::<
                Vec<FrameStep>,
                FrameError,
            >(FrameError::NormalsMissing),
            has_depth && (has_normals || !self.prepass_enabled) ==> (r matches Ok(steps)
                && steps@ == self.frame_steps(lists, ops@)),
    {
        if !has_depth {
            return Err(FrameError::DepthMissing);
        }
        if self.prepass_enabled && !has_normals {
            return Err(FrameError::NormalsMissing);
        }
        let mut steps: Vec<FrameStep> = Vec::new();
        let sky: bool = self.put_opening(lists, &mut steps);
        self.put_stretches(lists, ops, !sky, &mut steps);
        if lists.overlay_draws > 0 {
            steps.push(
                FrameStep::Begin(
                    PassDesc {
                        kind: PassKind::Overlay,
                        target: FrameTarget::Display,
                        clear: false,
                        depth: DepthUse::Without,
                    },
                ),
            );
            steps.push(FrameStep::Overlay);
            steps.push(FrameStep::End);
        }
        proof {
            assert(steps@ =~= self.frame_steps(lists, ops@));
        }
        Ok(steps)
    }
}

impl Renderer {
    /// The renderer as it starts, with what was settled for it.
    pub fn new(
        settings: &Settings,
        sample_count: u32,
        width: u32,
        height: u32,
        sky_debug: bool,
    ) -> (r: Renderer)
        ensures
            r.width == larger(width as int, 1),
            r.height == larger(height as int, 1),
            r.hdr_enabled == settings.hdr_enabled,
            r.hdr is None,
            r.sample_count == sample_count,
            r.prepass_enabled == settings.prepass_enabled,
            !r.suppress_world_objects,
            !r.cull_debug_draw,
            r.sky_control == 0,
            r.bloom_intensity == 0,
            r.sky_debug == sky_debug,
            r.sky_dbg_last is None,
    {
        Renderer {
            width: max_u32(width, 1),
            height: max_u32(height, 1),
            hdr_enabled: settings.hdr_enabled,
            hdr: None,
            sample_count,
            prepass_enabled: settings.prepass_enabled,
            suppress_world_objects: false,
            cull_debug_draw: false,
            sky_control: 0,
            bloom_intensity: 0,
            sky_debug,
            sky_dbg_last: None,
        }
    }

    /// Changes the size of what the screen shows; true if the screen has to be set up again.
    /// Sizes of nothing are left alone.
    pub fn resize(&mut self, width: u32, height: u32) -> (configure: bool)
        ensures
            configure == (width != 0 && height != 0),
            configure ==> *final(self) == (Renderer { width, height, ..*old(self) }),
            !configure ==> *final(self) == *old(self),
    {
        if width == 0 || height == 0 {
            return false;
        }
        self.width = width;
        self.height = height;
        true
    }

    /// Makes the scene's own target fit the screen: what has to be made, if anything.
    pub fn ensure_hdr(&mut self, width: u32, height: u32) -> (made: Option<HdrTarget>)
        ensures
            ({
                let needed = old(self).hdr_enabled && width != 0 && height != 0 && old(self).hdr
                    != Some((width, height));
                &&& needed ==> *final(self) == (Renderer {
                    hdr: Some((width, height)),
                    ..*old(self)
                })
                &&& !needed ==> *final(self) == *old(self)
                &&& made == if needed {
                    Some(
                        HdrTarget {
                            width,
                            height,
                            samples: old(self).sample_count,
                            sampled: old(self).sample_count <= 1,
                        },
                    )
                } else {
                    None
                }
            }),
    {
        if !self.hdr_enabled || width == 0 || height == 0 {
            return None;
        }
        if let Some((w, h)) = self.hdr {
            if w == width && h == height {
                return None;
            }
        }
        self.hdr = Some((width, height));
        Some(
            HdrTarget {
                width,
                height,
                samples: self.sample_count,
                sampled: self.sample_count <= 1,
            },
        )
    }

    /// Sets what the sky and the toning are controlled by.
    pub fn set_sky(&mut self, control: u32)
        ensures
            *final(self) == (Renderer { sky_control: control, ..*old(self) }),
    {
        self.sky_control = control;
    }

    /// Sets how strongly bright light blooms.
    pub fn set_tonemap(&mut self, bloom_intensity: u32)
        ensures
            *final(self) == (Renderer { bloom_intensity, ..*old(self) }),
    {
        self.bloom_intensity = bloom_intensity;
    }

    /// Leaves out what the device culled, or draws it again.
    pub fn set_suppress_world_objects(&mut self, suppress: bool)
        ensures
            *final(self) == (Renderer { suppress_world_objects: suppress, ..*old(self) }),
    {
        self.suppress_world_objects = suppress;
    }

    /// Shows the spheres that are culled by, or hides them.
    pub fn set_cull_debug(&mut self, draw_spheres: bool)
        ensures
            *final(self) == (Renderer { cull_debug_draw: draw_spheres, ..*old(self) }),
    {
        self.cull_debug_draw = draw_spheres;
    }

    /// Notes which camera the sky is seen from, if asked to; true if it is not the one of the
    /// last frame.
    pub fn note_sky(&mut self, cameras: usize, main_camera: usize) -> (changed: bool)
        ensures
            changed == (old(self).sky_debug && !float_eq(old(self).sky_control, 0)
                && old(self).sky_dbg_last != Some((cameras, main_camera))),
            *final(self) == if changed {
                Renderer { sky_dbg_last: Some((cameras, main_camera)), ..*old(self) }
            } else {
                *old(self)
            },
    {
        if !self.sky_debug || eq(self.sky_control, 0) {
            return false;
        }
        if let Some((c, m)) = self.sky_dbg_last {
            if c == cameras && m == main_camera {
                return false;
            }
        }
        self.sky_dbg_last = Some((cameras, main_camera));
        true
    }

    /// What is done with the screen's next image, or without it.
    pub fn acquire(&self, acquired: Acquired) -> (next: Next)
        ensures
            next == match acquired {
                Acquired::Success | Acquired::Suboptimal => Next::Draw,
                Acquired::Outdated | Acquired::Lost => Next::Reconfigure,
                Acquired::Timeout | Acquired::Occluded => Next::Skip,
                Acquired::Validation => Next::Fail,
            },
    {
        match acquired {
            Acquired::Success | Acquired::Suboptimal => Next::Draw,
            Acquired::Outdated | Acquired::Lost => Next::Reconfigure,
            Acquired::Timeout | Acquired::Occluded => Next::Skip,
            Acquired::Validation => Next::Fail,
        }
    }
}

} // verus!
