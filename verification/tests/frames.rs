use wgpu_renderer::ffi::{
    WgrBlend, WgrDepthMode, WgrDraw3D, WgrSampler2D, WgrTerrainBatch, WgrWaterBatch, NO_PALETTE,
};
use wgpu_renderer::frame::{
    find_main_camera, Acquired, DepthTarget, DepthUse, FrameError, FrameLists, FrameStep,
    FrameTarget, Next, PassKind, Renderer,
};
use wgpu_renderer::gfx3d::plan::Plan3dOp;
use wgpu_renderer::startup::{settle, AdapterCaps, EnvFlags, Settings};

fn draw(camera: u32) -> WgrDraw3D {
    WgrDraw3D {
        mesh: 1,
        index_begin: 0,
        index_count: 6,
        texture_id: 0,
        world: [0; 16],
        blend: WgrBlend::Opaque,
        sampler: WgrSampler2D(0),
        camera,
        palette_slot: NO_PALETTE,
        depth: WgrDepthMode::TestWrite,
        alpha_ref: 0,
        flags: 0,
        mat_emissive: [0; 4],
        mat_sun_ambient: [0; 4],
        mat_sun_diffuse: [0; 4],
        mat_light_diffuse: [0; 4],
        mat_light_ambient: [0; 4],
        mat_specular: [0; 4],
        conform0: [0; 4],
        conform1: [0; 4],
        conform2: [0; 4],
    }
}

fn settings(hdr: bool, prepass: bool) -> Settings {
    let caps = AdapterCaps {
        texture_compression_bc: true,
        binding_arrays: true,
        partially_bound: true,
        indirect_first_instance: true,
        multi_draw_count: true,
    };
    let env = EnvFlags {
        prepass: if prepass { None } else { Some("0") },
        skin_bake: None,
        indirect: None,
        gpu_driven: None,
        hdr: if hdr { None } else { Some("0") },
        msaa: None,
    };
    settle(caps, &env).unwrap()
}

fn lists<'a>(
    draws3d: &'a [WgrDraw3D],
    terrain_batches: &'a [WgrTerrainBatch],
    water_batches: &'a [WgrWaterBatch],
) -> FrameLists<'a> {
    FrameLists {
        cameras: 2,
        camera_stride: 768,
        cameras_bound: true,
        draws3d,
        batches: 1,
        terrain_batches,
        water_batches,
        overlay_draws: 0,
    }
}

fn kinds(steps: &[FrameStep]) -> Vec<PassKind> {
    steps
        .iter()
        .filter_map(|s| match s {
            FrameStep::Begin(p) => Some(p.kind),
            _ => None,
        })
        .collect()
}

#[test]
fn a_frame_needs_its_targets() {
    let r = Renderer::new(&settings(true, true), 4, 640, 480, false);
    let l = lists(&[], &[], &[]);
    assert_eq!(r.render_frame(&l, &[], false, true), Err(FrameError::DepthMissing));
    assert_eq!(r.render_frame(&l, &[], true, false), Err(FrameError::NormalsMissing));
    assert!(r.render_frame(&l, &[], true, true).is_ok());
    let plain = Renderer::new(&settings(true, false), 4, 640, 480, false);
    assert!(plain.render_frame(&l, &[], true, false).is_ok());
}

#[test]
fn an_empty_frame_is_still_toned() {
    let mut r = Renderer::new(&settings(true, true), 4, 640, 480, false);
    r.ensure_hdr(640, 480);
    let steps = r.render_frame(&lists(&[], &[], &[]), &[], true, true).unwrap();
    assert_eq!(
        steps[..5],
        [
            FrameStep::SkinBake,
            FrameStep::Cull,
            FrameStep::CullShadows,
            FrameStep::Shadows,
            FrameStep::TerrainShadow,
        ]
    );
    assert_eq!(
        kinds(&steps),
        [PassKind::Prepass, PassKind::Color { depth_complete: true }]
    );
    assert_eq!(
        steps[steps.len() - 3..],
        [FrameStep::JoinSamples, FrameStep::Exposure, FrameStep::Tonemap]
    );
    r.set_tonemap(1.0f32.to_bits());
    let steps = r.render_frame(&lists(&[], &[], &[]), &[], true, true).unwrap();
    assert!(steps.contains(&FrameStep::Bloom));
}

#[test]
fn what_follows_toning_is_drawn_on_the_screen() {
    let draws = [draw(1)];
    let ground = [WgrTerrainBatch { first_node: 2, node_count: 3, camera: 1 }];
    let sea = [WgrWaterBatch { first_node: 4, node_count: 5, camera: 1 }];
    let l = lists(&draws, &ground, &sea);
    let ops = [
        Plan3dOp::Draw3D { draw: 0, base: 0, count: 1 },
        Plan3dOp::Terrain(0),
        Plan3dOp::Water(0),
        Plan3dOp::Resolve,
        Plan3dOp::Draw2D(0),
        Plan3dOp::Draw2D(9),
    ];
    let mut r = Renderer::new(&settings(true, true), 4, 640, 480, false);
    r.ensure_hdr(640, 480);
    r.set_sky(1.0f32.to_bits());
    let steps = r.render_frame(&l, &ops, true, true).unwrap();
    assert_eq!(
        kinds(&steps),
        [
            PassKind::Sky,
            PassKind::Prepass,
            PassKind::Color { depth_complete: true },
            PassKind::Water,
            PassKind::Color { depth_complete: false },
            PassKind::Flat,
        ]
    );
    assert!(steps.contains(&FrameStep::SkyTables { camera: 1 }));
    for prepass in [true, false] {
        let mesh = FrameStep::Mesh { draw: 0, base: 0, count: 1, prepass };
        let at = steps.iter().position(|&s| s == mesh).unwrap();
        assert_eq!(steps[at + 1], FrameStep::Forget);
        assert_eq!(
            steps[at + 2],
            FrameStep::Ground { camera_offset: 768, first_node: 2, node_count: 3, prepass }
        );
    }
    let toned = steps.iter().position(|&s| s == FrameStep::Tonemap).unwrap();
    let sea = FrameStep::Sea { camera_offset: 768, first_node: 4, node_count: 5 };
    assert!(steps.iter().position(|&s| s == sea).unwrap() < toned);
    let flat = FrameStep::Flat { batch: 0, display: true };
    assert!(steps.iter().position(|&s| s == flat).unwrap() > toned);
    assert!(!steps.contains(&FrameStep::Flat { batch: 9, display: true }));
    for s in &steps[toned..] {
        if let FrameStep::Begin(p) = s {
            assert_eq!(p.target, FrameTarget::Display);
            assert!(!p.clear);
            if p.kind == PassKind::Flat {
                assert_eq!(p.depth, DepthUse::Load(DepthTarget::Display));
            }
        }
    }
}

#[test]
fn water_is_drawn_until_the_scene_is_toned() {
    let sea: Vec<WgrWaterBatch> =
        (0..3).map(|n| WgrWaterBatch { first_node: n, node_count: 1, camera: 0 }).collect();
    let ops = [
        Plan3dOp::Water(2),
        Plan3dOp::ClearDepth,
        Plan3dOp::Water(9),
        Plan3dOp::Water(0),
        Plan3dOp::Resolve,
        Plan3dOp::Water(1),
    ];
    let drawn = |hdr: bool, bound: bool| -> Vec<u32> {
        let mut l = lists(&[], &[], &sea);
        l.cameras_bound = bound;
        let mut r = Renderer::new(&settings(hdr, false), 1, 640, 480, false);
        r.ensure_hdr(640, 480);
        let steps = r.render_frame(&l, &ops, true, true).unwrap();
        steps
            .iter()
            .filter_map(|s| match *s {
                FrameStep::Sea { first_node, .. } => Some(first_node),
                _ => None,
            })
            .collect()
    };
    assert_eq!(drawn(true, true), [2, 0]);
    assert_eq!(drawn(false, true), [2, 0, 1]);
    assert_eq!(drawn(true, false), []);
}

#[test]
fn passes_follow_one_another() {
    let draws = [draw(0)];
    let l = lists(&draws, &[], &[]);
    let ops = [
        Plan3dOp::Draw3D { draw: 0, base: 0, count: 1 },
        Plan3dOp::ClearDepth,
        Plan3dOp::Draw2D(0),
    ];
    let r = Renderer::new(&settings(false, false), 1, 640, 480, false);
    let steps = r.render_frame(&l, &ops, true, false).unwrap();
    let mut open = false;
    for s in &steps {
        match s {
            FrameStep::Begin(_) => {
                assert!(!open);
                open = true;
            }
            FrameStep::End => {
                assert!(open);
                open = false;
            }
            _ => {}
        }
    }
    assert!(!open);
    assert!(!steps.contains(&FrameStep::Tonemap));
    assert_eq!(
        kinds(&steps),
        [
            PassKind::Color { depth_complete: false },
            PassKind::Color { depth_complete: false },
            PassKind::Flat,
        ]
    );
    assert!(steps.contains(&FrameStep::World { camera_offset: 0 }));
}

#[test]
fn world_and_spheres_can_be_switched() {
    let l = lists(&[], &[], &[]);
    let mut r = Renderer::new(&settings(true, true), 1, 640, 480, false);
    r.set_cull_debug(true);
    let steps = r.render_frame(&l, &[], true, true).unwrap();
    assert!(steps.contains(&FrameStep::CullSpheres { camera_offset: 0 }));
    r.set_suppress_world_objects(true);
    let steps = r.render_frame(&l, &[], true, true).unwrap();
    assert!(!steps.contains(&FrameStep::World { camera_offset: 0 }));
    assert!(!steps.contains(&FrameStep::CullSpheres { camera_offset: 0 }));
}

#[test]
fn overlays_come_last() {
    let mut l = lists(&[], &[], &[]);
    l.overlay_draws = 3;
    let r = Renderer::new(&settings(true, true), 1, 640, 480, false);
    let steps = r.render_frame(&l, &[], true, true).unwrap();
    assert_eq!(steps[steps.len() - 2..], [FrameStep::Overlay, FrameStep::End]);
}

#[test]
fn the_ground_chooses_the_camera() {
    let ground = [WgrTerrainBatch { first_node: 0, node_count: 0, camera: 4 }];
    assert_eq!(find_main_camera(&ground, &[draw(2)]), 4);
    assert_eq!(find_main_camera(&[], &[draw(2)]), 2);
    assert_eq!(find_main_camera(&[], &[]), 0);
}

#[test]
fn the_screen_is_set_up_when_it_changes() {
    let mut r = Renderer::new(&settings(true, true), 4, 0, 480, true);
    assert_eq!((r.width, r.height), (1, 480));
    assert!(!r.resize(0, 5));
    assert!(!r.resize(5, 0));
    assert!(r.resize(5, 6));
    assert_eq!((r.width, r.height), (5, 6));
    assert!(r.ensure_hdr(0, 6).is_none());
    let made = r.ensure_hdr(5, 6).unwrap();
    assert_eq!((made.width, made.height, made.samples, made.sampled), (5, 6, 4, false));
    assert!(r.ensure_hdr(5, 6).is_none());
    assert!(!r.note_sky(1, 0));
    r.set_sky(1);
    assert!(r.note_sky(1, 0));
    assert!(!r.note_sky(1, 0));
    assert!(r.note_sky(2, 0));
}

#[test]
fn a_lost_screen_is_set_up_again() {
    let r = Renderer::new(&settings(true, true), 4, 1, 1, false);
    assert_eq!(r.acquire(Acquired::Success), Next::Draw);
    assert_eq!(r.acquire(Acquired::Suboptimal), Next::Draw);
    assert_eq!(r.acquire(Acquired::Outdated), Next::Reconfigure);
    assert_eq!(r.acquire(Acquired::Lost), Next::Reconfigure);
    assert_eq!(r.acquire(Acquired::Timeout), Next::Skip);
    assert_eq!(r.acquire(Acquired::Occluded), Next::Skip);
    assert_eq!(r.acquire(Acquired::Validation), Next::Fail);
}
