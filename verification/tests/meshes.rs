use wgpu_renderer::bits::ONE;
use wgpu_renderer::desc::{BlendFactor, DepthCompare};
use wgpu_renderer::ffi::{
    WgrBlend, WgrCmd, WgrDepthMode, WgrDraw3D, WgrSampler2D, WgrShadowCaster, WgrShadowPass,
    DRAW3D_ON_SURFACE, NO_PALETTE,
};
use wgpu_renderer::gfx3d::mesh::{Offset, PipelineKey};
use wgpu_renderer::gfx3d::pack::{pack_casters, pack_materials, pack_objects};
use wgpu_renderer::gfx3d::pass::{Pass3dState, PassCmd};
use wgpu_renderer::gfx3d::pipelines::{blend_state, describe_pipeline, PipelineCache};
use wgpu_renderer::gfx3d::plan::{plan_3d, Plan3dOp};
use wgpu_renderer::gfx3d::scene::{padded_row_bytes, read_depth_rows, CameraGroup, FrameInputs, Gfx3d};
use wgpu_renderer::gfx3d::shadows::plan_shadows;

const DRAW: u32 = 1;

fn draw(mesh: u64) -> WgrDraw3D {
    WgrDraw3D {
        mesh,
        index_begin: 0,
        index_count: 6,
        texture_id: 11,
        world: [1; 16],
        blend: WgrBlend::Opaque,
        sampler: WgrSampler2D(0),
        camera: 0,
        palette_slot: NO_PALETTE,
        depth: WgrDepthMode::TestWrite,
        alpha_ref: 0,
        flags: 0,
        mat_emissive: [2; 4],
        mat_sun_ambient: [3; 4],
        mat_sun_diffuse: [4; 4],
        mat_light_diffuse: [5; 4],
        mat_light_ambient: [6; 4],
        mat_specular: [7; 4],
        conform0: [8; 4],
        conform1: [9; 4],
        conform2: [10; 4],
    }
}

fn caster(mesh: u64, mask: u32) -> WgrShadowCaster {
    WgrShadowCaster {
        mesh,
        index_begin: 0,
        index_count: 6,
        world: [1; 16],
        texture_id: 5,
        palette_slot: NO_PALETTE,
        alpha_ref: 0,
        sampler: WgrSampler2D(2),
        cascade_mask: mask,
        conform0: [8; 4],
        conform2: [10; 4],
    }
}

fn shadow_pass(count: u32, resolution: u32) -> WgrShadowPass {
    WgrShadowPass { count, resolution, light_vp: [[0; 16]; 4], cam_pos: [0; 4] }
}

fn cmds(list: &[(u32, u32)]) -> Vec<WgrCmd> {
    list.iter().map(|&(kind, arg)| WgrCmd { kind, arg }).collect()
}

fn inputs(cameras: usize) -> FrameInputs {
    FrameInputs { cameras, lights: 300, palette_len: 0, mask_gen: 0, ground_gen: 0 }
}

#[test]
fn likes_are_drawn_together() {
    let mut g = Gfx3d::new(256);
    let (a, b) = (g.mesh_create(4, 6), g.mesh_create(4, 6));
    let draws = [draw(a), draw(b), draw(a)];
    let plan = g.plan_3d(&cmds(&[(DRAW, 0), (DRAW, 1), (DRAW, 2)]), &draws);
    assert_eq!(plan.order, [0, 2, 1]);
    assert_eq!(
        plan.ops,
        [
            Plan3dOp::Draw3D { draw: 0, base: 0, count: 2 },
            Plan3dOp::Draw3D { draw: 1, base: 2, count: 1 },
        ]
    );
}

#[test]
fn other_steps_split_the_plan() {
    let mut g = Gfx3d::new(256);
    let a = g.mesh_create(4, 6);
    let mut glass = draw(a);
    glass.blend = WgrBlend::Alpha;
    let draws = [draw(a), glass];
    let list = cmds(&[
        (DRAW, 0),
        (0, 7),
        (DRAW, 0),
        (DRAW, 1),
        (DRAW, 0),
        (2, 0),
        (3, 8),
        (4, 0),
        (5, 9),
        (99, 0),
        (DRAW, 2),
    ]);
    let plan = plan_3d(&g.meshes, &list, &draws);
    assert_eq!(plan.order, [0, 0, 1, 0]);
    assert_eq!(
        plan.ops,
        [
            Plan3dOp::Draw3D { draw: 0, base: 0, count: 1 },
            Plan3dOp::Draw2D(7),
            Plan3dOp::Draw3D { draw: 0, base: 1, count: 1 },
            Plan3dOp::Draw3D { draw: 1, base: 2, count: 1 },
            Plan3dOp::Draw3D { draw: 0, base: 3, count: 1 },
            Plan3dOp::ClearDepth,
            Plan3dOp::Terrain(8),
            Plan3dOp::Resolve,
            Plan3dOp::Water(9),
        ]
    );
}

#[test]
fn sections_outside_their_mesh_are_left_out() {
    let mut g = Gfx3d::new(256);
    let a = g.mesh_create(4, 6);
    let mut outside = draw(a);
    outside.index_begin = 1;
    let mut empty = draw(a);
    empty.index_count = 0;
    let draws = [outside, empty, draw(0)];
    let plan = g.plan_3d(&cmds(&[(DRAW, 0), (DRAW, 1), (DRAW, 2)]), &draws);
    assert!(plan.order.is_empty() && plan.ops.is_empty());
}

#[test]
fn draws_come_as_they_were_first_asked_for() {
    let mut g = Gfx3d::new(256);
    let (a, b, c) = (g.mesh_create(4, 6), g.mesh_create(4, 6), g.mesh_create(4, 6));
    let draws = [draw(c), draw(a), draw(b), draw(a), draw(c), draw(b)];
    let list: Vec<(u32, u32)> = (0..6).map(|i| (DRAW, i)).collect();
    let plan = g.plan_3d(&cmds(&list), &draws);
    assert_eq!(plan.order, [0, 4, 1, 3, 2, 5]);
    assert_eq!(
        plan.ops,
        [
            Plan3dOp::Draw3D { draw: 0, base: 0, count: 2 },
            Plan3dOp::Draw3D { draw: 1, base: 2, count: 2 },
            Plan3dOp::Draw3D { draw: 2, base: 4, count: 2 },
        ]
    );
}

#[test]
fn what_differs_is_drawn_apart() {
    let mut g = Gfx3d::new(256);
    let a = g.mesh_create(4, 12);
    let mut draws = vec![draw(a); 7];
    draws[1].index_begin = 6;
    draws[2].texture_id = 12;
    draws[3].sampler = WgrSampler2D(1);
    draws[4].camera = 1;
    draws[5].alpha_ref = ONE;
    let list = cmds(&[(DRAW, 0), (DRAW, 1), (DRAW, 2), (DRAW, 3), (DRAW, 4), (DRAW, 5), (DRAW, 6)]);
    let plan = g.plan_3d(&list, &draws);
    assert_eq!(plan.order, [0, 6, 1, 2, 3, 4, 5]);
    assert_eq!(plan.ops.len(), 6);
}

#[test]
fn meshes_come_and_go() {
    let mut g = Gfx3d::new(256);
    assert_eq!(g.mesh_create(0, 6), 0);
    assert_eq!(g.mesh_create(4, 0), 0);
    let a = g.mesh_create(2, 6);
    assert!(g.mesh_update(a, 2));
    assert!(g.mesh_update(a, 1));
    assert!(!g.mesh_update(a, 3));
    assert!(!g.mesh_update(a, 0));
    assert!(!g.mesh_update(0, 1));
    assert_eq!(g.mesh_handle(a), a);
    assert_eq!(g.mesh_handle(0), 0);
    let bones = [1, 2, 3, 4, 5, 6, 7, 8];
    let weights = [11, 12, 13, 14, 15, 16, 17, 18];
    assert_eq!(g.mesh_set_skin(a, &bones[..7], &weights), None);
    assert_eq!(g.mesh_set_skin(0, &bones, &weights), None);
    assert_eq!(
        g.mesh_set_skin(a, &bones, &weights).unwrap(),
        [1, 2, 3, 4, 11, 12, 13, 14, 5, 6, 7, 8, 15, 16, 17, 18]
    );
    g.mesh_destroy(a);
    assert!(!g.mesh_update(a, 2));
    assert_eq!(g.mesh_handle(a), 0);
    g.mesh_destroy(0);
}

#[test]
fn depth_follows_the_screen() {
    let mut g = Gfx3d::new(256);
    assert_eq!(g.ensure_depth(640, 480), Some((640, 480)));
    assert_eq!(g.ensure_depth(640, 480), None);
    assert_eq!(g.ensure_depth(0, 480), Some((1, 480)));
}

#[test]
fn slots_hold_the_draws_words() {
    let mut d = draw(1);
    d.world = [0, 1, 2, 3, 4, 5, 6, 7, 8, 9, 10, 11, 12, 13, 14, 15];
    let draws = [draw(1), d];
    let objects = pack_objects(&draws, &[1, 0]);
    assert_eq!(objects.len(), 56);
    assert_eq!(objects[15..18], [15, 8, 8]);
    assert_eq!(objects[19..25], [8, 9, 9, 9, 9, 10]);
    assert_eq!(objects[28], 1);
    let materials = pack_materials(&draws, &[0]);
    assert_eq!(
        materials,
        [2, 2, 2, 2, 3, 3, 3, 3, 4, 4, 4, 4, 5, 5, 5, 5, 6, 6, 6, 6, 7, 7, 7, 7]
    );
    let words = pack_casters(&[caster(1, 1)], &[0]);
    assert_eq!(words[14..], [1, 1, 8, 8, 8, 8, 10, 10, 10, 10]);
}

#[test]
fn casters_are_drawn_in_their_cascades() {
    let mut g = Gfx3d::new(256);
    let (a, b) = (g.mesh_create(4, 6), g.mesh_create(4, 6));
    let casters = [caster(a, 1), caster(b, 3), caster(a, 3), caster(0, 3)];
    let plan = plan_shadows(&g.meshes, &casters, 2);
    assert_eq!(plan.packed, [0, 2, 1, 1, 2]);
    assert_eq!(plan.cascades.len(), 2);
    let first: Vec<(u32, u32, u32)> =
        plan.cascades[0].iter().map(|d| (d.repr, d.base, d.count)).collect();
    assert_eq!(first, [(0, 0, 2), (1, 2, 1)]);
    let second: Vec<(u32, u32, u32)> =
        plan.cascades[1].iter().map(|d| (d.repr, d.base, d.count)).collect();
    assert_eq!(second, [(1, 3, 1), (2, 4, 1)]);
}

#[test]
fn casters_with_bones_are_drawn_first_and_alone() {
    let mut g = Gfx3d::new(256);
    let (a, b) = (g.mesh_create(1, 6), g.mesh_create(1, 6));
    g.mesh_set_skin(b, &[0; 4], &[255, 0, 0, 0]);
    let mut moved = caster(b, 1);
    moved.palette_slot = 0;
    let casters = [caster(b, 1), moved, caster(a, 1), moved, caster(b, 1)];
    let plan = plan_shadows(&g.meshes, &casters, 1);
    assert_eq!(plan.packed, [1, 3, 0, 4, 2]);
    let draws: Vec<(u32, u32, u32)> =
        plan.cascades[0].iter().map(|d| (d.repr, d.base, d.count)).collect();
    assert_eq!(draws, [(1, 0, 1), (3, 1, 1), (0, 2, 2), (2, 4, 1)]);
}

#[test]
fn casters_share_a_draw_whatever_they_do_not_show() {
    let mut g = Gfx3d::new(256);
    let a = g.mesh_create(4, 6);
    let mut other = caster(a, 1);
    other.texture_id = 6;
    other.sampler = WgrSampler2D(0);
    let plan = plan_shadows(&g.meshes, &[caster(a, 1), other], 1);
    assert_eq!(plan.cascades[0].len(), 1);
    let mut cut = caster(a, 1);
    cut.alpha_ref = ONE;
    other.alpha_ref = ONE;
    let plan = plan_shadows(&g.meshes, &[cut, other], 1);
    assert_eq!(plan.cascades[0].len(), 2);
}

#[test]
fn shadows_are_set_up_once() {
    let mut g = Gfx3d::new(256);
    let a = g.mesh_create(4, 6);
    let casters = [caster(a, 1)];
    assert!(g.prepare_shadows(&shadow_pass(0, 512), &casters).is_none());
    assert!(g.prepare_shadows(&shadow_pass(1, 512), &[]).is_none());
    assert!(g.render_shadow_passes(&shadow_pass(1, 512), &casters).is_empty());
    let up = g.prepare_shadows(&shadow_pass(9, 512), &casters).unwrap();
    assert_eq!(up.cascades, 4);
    assert!(up.build_pipelines && up.pass_grew && up.casters_grew && up.casters_rebind);
    assert_eq!(up.target.unwrap().layers, 4);
    assert_eq!(g.shadow_gen, 1);
    let up = g.prepare_shadows(&shadow_pass(4, 512), &casters).unwrap();
    assert!(!up.build_pipelines && !up.pass_grew && !up.casters_grew && !up.casters_rebind);
    assert!(up.target.is_none());
    assert_eq!(g.shadow_gen, 1);
    let draws = g.render_shadow_passes(&shadow_pass(4, 512), &casters);
    assert_eq!(draws.len(), 4);
    assert_eq!(draws[0].len(), 1);
    assert!(draws[1].is_empty());
    let d = draws[0][0];
    assert_eq!((d.skinned, d.cutout, d.texture, d.mesh), (false, false, 0, a));
    assert_eq!((d.first, d.end, d.base, d.base_end), (0, 6, 0, 1));
    assert_eq!(g.shadow_map_read(0, 512 * 512), 512);
    assert_eq!(g.shadow_map_read(4, 512 * 512), 0);
    assert_eq!(g.shadow_map_read(0, 512 * 512 - 1), 0);
}

#[test]
fn a_frame_makes_room_and_pipelines() {
    let mut g = Gfx3d::new(256);
    let a = g.mesh_create(4, 6);
    let mut glass = draw(a);
    glass.blend = WgrBlend::Alpha;
    let draws = [draw(a), glass, draw(a)];
    let up = g.prepare(&draws, &[0, 2, 1], inputs(2));
    assert!(up.ground_rebind && up.cameras_grew && up.cameras_rebind);
    assert!(up.world_grew && up.material_grew && up.plain_rebind);
    assert!(!up.palette_grew && !up.skinned_rebind);
    assert_eq!(up.lights, 256);
    assert_eq!(up.pipelines.len(), 2);
    assert_eq!(up.objects.len(), 3 * 28);
    let up = g.prepare(&draws, &[0, 2, 1], inputs(2));
    assert!(!up.ground_rebind && !up.cameras_grew && !up.cameras_rebind);
    assert!(!up.world_grew && !up.material_grew && !up.plain_rebind);
    assert!(up.pipelines.is_empty());
    let mut more = inputs(2);
    more.mask_gen = 1;
    more.palette_len = 300;
    let up = g.prepare(&draws, &[], more);
    assert!(up.cameras_rebind && !up.cameras_grew);
    assert_eq!(up.palette_slots, 2);
    assert!(up.palette_grew && up.skinned_rebind);
}

#[test]
fn what_is_prepared_can_be_drawn() {
    let mut g = Gfx3d::new(256);
    let a = g.mesh_create(4, 6);
    let draws = [draw(a)];
    let mut st = Pass3dState::default();
    assert!(g.draw_one(&draws[0], 0, 1, &mut st).is_empty());
    g.prepare(&draws, &[0], inputs(1));
    let list = g.draw_one(&draws[0], 0, 1, &mut st);
    assert_eq!(
        list,
        [
            PassCmd::Pipeline(0),
            PassCmd::Camera(0),
            PassCmd::Instances,
            PassCmd::Texture(11),
            PassCmd::Sampler(0),
            PassCmd::Ground,
            PassCmd::VertexBuffer(a),
            PassCmd::IndexBuffer(a),
            PassCmd::DrawIndexed { first: 0, end: 6, base: 0, base_end: 1 },
        ]
    );
    let again = g.draw_one(&draws[0], 1, 2, &mut st);
    assert_eq!(again, [PassCmd::DrawIndexed { first: 0, end: 6, base: 1, base_end: 3 }]);
    let mut other = draws[0];
    other.camera = 3;
    other.texture_id = 1;
    let list = g.draw_one(&other, 0, 1, &mut st);
    assert_eq!(list[..2], [PassCmd::Camera(3 * 768), PassCmd::Texture(1)]);
    assert_eq!(list.len(), 3);
}

#[test]
fn bones_unset_what_was_bound() {
    let mut g = Gfx3d::new(256);
    let a = g.mesh_create(1, 6);
    g.mesh_set_skin(a, &[0; 4], &[0; 4]);
    let mut moving = draw(a);
    moving.palette_slot = 1;
    let draws = [draw(a), moving];
    let mut frame = inputs(1);
    frame.palette_len = 256;
    g.prepare(&draws, &[0, 1], frame);
    let mut st = Pass3dState::default();
    g.draw_one(&draws[0], 0, 1, &mut st);
    let list = g.draw_one(&moving, 1, 1, &mut st);
    assert_eq!(
        list,
        [
            PassCmd::Pipeline(1),
            PassCmd::Bones(8192),
            PassCmd::SkinBuffer(a),
            PassCmd::Texture(11),
            PassCmd::Sampler(0),
            PassCmd::Ground,
            PassCmd::DrawIndexed { first: 0, end: 6, base: 1, base_end: 2 },
        ]
    );
    let back = g.draw_one(&draws[0], 0, 1, &mut st);
    assert_eq!(back[..2], [PassCmd::Pipeline(0), PassCmd::Instances]);
}

#[test]
fn cameras_are_bound_again_when_what_they_see_is() {
    let mut c = CameraGroup::new(1024);
    assert_eq!(c.stride, 1024);
    let g = Gfx3d::new(256);
    assert_eq!((g.camera_stride(), g.palette_stride, g.shadow_pass_stride), (768, 8192, 256));
    assert_eq!(c.ensure(1, 0, 0), (true, true));
    assert_eq!(c.ensure(1, 0, 0), (false, false));
    assert_eq!(c.ensure(1, 1, 0), (false, true));
    assert_eq!(c.ensure(1, 1, 1), (false, true));
    assert_eq!(c.ensure(1, 1, 1), (false, false));
}

#[test]
fn draws_are_offset_as_they_lie() {
    let mut d = draw(1);
    assert_eq!(PipelineKey::from_draw(&d, false).offset, Offset::Plain);
    d.flags = DRAW3D_ON_SURFACE;
    assert_eq!(PipelineKey::from_draw(&d, false).offset, Offset::Decal);
    d.flags = 0x200;
    assert_eq!(PipelineKey::from_draw(&d, false).offset, Offset::ZBias(2));
    d.flags = 0x201;
    d.blend = WgrBlend::Shadow;
    assert_eq!(PipelineKey::from_draw(&d, false).offset, Offset::Shadow);
    assert!(PipelineKey::from_draw(&d, true).skinned);
}

#[test]
fn pipelines_are_described_by_their_keys() {
    let mut d = draw(1);
    let plain = describe_pipeline(&PipelineKey::from_draw(&d, false));
    assert!(plain.depth_write && plain.blend.is_none() && !plain.once_per_pixel);
    assert_eq!(plain.depth_compare, DepthCompare::GreaterEqual);
    d.blend = WgrBlend::Shadow;
    d.depth = WgrDepthMode::Test;
    let shadow = describe_pipeline(&PipelineKey::from_draw(&d, false));
    assert!(!shadow.depth_write && shadow.once_per_pixel && shadow.is_shadow);
    assert_eq!(shadow.depth_bias, 64);
    d.depth = WgrDepthMode::Off;
    let over = describe_pipeline(&PipelineKey::from_draw(&d, false));
    assert_eq!(over.depth_compare, DepthCompare::Always);
    assert!(blend_state(WgrBlend::Opaque).is_none());
    assert_eq!(blend_state(WgrBlend::Alpha).unwrap().color.src, BlendFactor::SrcAlpha);
}

#[test]
fn a_pipeline_is_built_once() {
    let mut cache = PipelineCache::new();
    let key = PipelineKey::from_draw(&draw(1), false);
    let other = PipelineKey::from_draw(&draw(1), true);
    assert!(cache.find(&key).is_none());
    assert!(cache.ensure_pipeline(&key).is_some());
    assert!(cache.ensure_pipeline(&key).is_none());
    assert!(cache.ensure_pipeline(&other).unwrap().skinned);
    assert_eq!((cache.find(&key), cache.find(&other)), (Some(0), Some(1)));
}

#[test]
fn a_probe_needs_whole_triangles() {
    let mut g = Gfx3d::new(256);
    let identity = [ONE, 0, 0, 0, 0, ONE, 0, 0, 0, 0, ONE, 0, 0, 0, 0, ONE];
    let verts = [1, 2, 3, 4, 5, 6, 7, 8, 9];
    assert!(g.shadow_depth_probe(&identity, &verts[..8], 4, 16).is_none());
    assert!(g.shadow_depth_probe(&identity, &verts, 4, 15).is_none());
    assert!(g.shadow_depth_probe(&identity, &[], 4, 16).is_none());
    let p = g.shadow_depth_probe(&identity, &verts, 4, 16).unwrap();
    assert!(p.build_pipelines && p.pass_grew && p.casters_grew);
    assert_eq!(p.indices, [0, 1, 2]);
    assert_eq!(p.vertices.len(), 27);
    assert_eq!(p.vertices[9..12], [4, 5, 6]);
    assert_eq!(p.pass[..2], [ONE, 0]);
    assert_eq!(p.pass.len(), 20);
    assert_eq!(p.caster[..6], [ONE, 0, 0, 0, 0, ONE]);
    assert!(!g.shadow_depth_probe(&identity, &verts, 4, 16).unwrap().build_pipelines);
}

#[test]
fn rows_lose_their_padding() {
    assert_eq!(padded_row_bytes(64, 256), 256);
    assert_eq!(padded_row_bytes(65, 256), 512);
    let data = [1, 2, 3, 4, 5, 6, 7, 8, 0, 0, 9, 10, 11, 12, 13, 14, 15, 16, 0, 0];
    assert_eq!(
        read_depth_rows(&data, 2, 10),
        [1, 2, 3, 4, 5, 6, 7, 8, 9, 10, 11, 12, 13, 14, 15, 16]
    );
}
