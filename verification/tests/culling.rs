use wgpu_renderer::gfx3d::cull::{
    build_gpu_pipeline, gpu_group1_layout, params_from_camera, CullInputs, CullState, InstanceGpu,
    LodGpu, SectionGpu, SectionMaterialGpu, INVALID_MODEL,
};
use wgpu_renderer::desc::ColorTarget;

fn instance(model: u32) -> InstanceGpu {
    InstanceGpu { world: [0; 16], center: [0; 4], model, flags: 0, surface_y: 0 }
}

fn lod(section_base: u32, section_count: u32) -> LodGpu {
    LodGpu { resolution: 0, section_base, section_count, is_decal: 0 }
}

fn section(first_index: u32) -> SectionGpu {
    SectionGpu { first_index, index_count: 3, base_vertex: 0, variant: 0 }
}

fn material() -> SectionMaterialGpu {
    SectionMaterialGpu {
        emissive: [0; 4],
        ambient: [0; 4],
        diffuse: [0; 4],
        specular: [0; 4],
        texture_slot: 0,
        sampler: 0,
        alpha_ref: 0,
    }
}

#[test]
fn levels_find_their_sections() {
    let mut c = CullState::new();
    let a = c.register_model(1, &[lod(0, 2)], &[section(0), section(3)], &[material(), material()]);
    let b = c.register_model(2, &[lod(0, 1), lod(1, 1)], &[section(6), section(9)], &[material(), material()]);
    assert_eq!((a, b), (0, 1));
    assert_eq!((c.models[1].lod_base, c.models[1].lod_count, c.models[1].bounding_sphere), (1, 2, 2));
    assert_eq!(c.lods[0].section_base, 0);
    assert_eq!((c.lods[1].section_base, c.lods[2].section_base), (2, 3));
    assert_eq!(c.sections[c.lods[2].section_base as usize].first_index, 9);
    assert!(c.tables_dirty);
}

#[test]
fn sections_are_replaced_when_they_differ() {
    let mut c = CullState::new();
    c.set_sections(&[]);
    assert!(!c.tables_dirty);
    c.set_sections(&[section(1)]);
    assert!(c.tables_dirty);
    c.prepare();
    assert!(!c.tables_dirty);
    c.set_sections(&[section(1)]);
    assert!(!c.tables_dirty);
    c.set_sections(&[section(2)]);
    assert!(c.tables_dirty);
}

#[test]
fn slots_are_used_again_the_last_first() {
    let mut c = CullState::new();
    assert_eq!((c.instance_add(instance(1)), c.instance_add(instance(2)), c.instance_add(instance(3))), (0, 1, 2));
    c.instance_remove(0);
    c.instance_remove(2);
    assert_eq!(c.static_instances[2].model, INVALID_MODEL);
    c.instance_remove(9);
    assert_eq!(c.free_slots, [0, 2]);
    assert_eq!(c.instance_add(instance(4)), 2);
    assert_eq!(c.static_instances[2].model, 4);
    assert_eq!(c.instance_add(instance(5)), 0);
    assert_eq!(c.instance_add(instance(6)), 3);
}

#[test]
fn only_what_changed_is_written() {
    let mut c = CullState::new();
    for model in 0..10 {
        c.instance_add(instance(model));
    }
    let up = c.prepare();
    assert!(up.instances_grew && up.args_grew && up.grew && up.rebind);
    assert_eq!(up.static_write, Some((0, 10)));
    assert_eq!(up.dynamic_at, None);
    assert_eq!(c.params.instance_count, 10);
    let up = c.prepare();
    assert!(!up.grew);
    assert_eq!(up.static_write, None);
    c.instance_update(7, instance(70));
    c.instance_update(3, instance(30));
    c.instance_update(99, instance(0));
    let up = c.prepare();
    assert_eq!(up.static_write, Some((3, 5)));
    c.set_dynamic(&[instance(1), instance(2)]);
    let up = c.prepare();
    assert_eq!(up.dynamic_at, Some(10));
    assert_eq!(c.params.instance_count, 12);
}

#[test]
fn everything_is_written_when_the_count_changes() {
    let mut c = CullState::new();
    c.instance_add(instance(1));
    c.instance_add(instance(2));
    c.prepare();
    c.instance_add(instance(3));
    assert_eq!(c.prepare().static_write, Some((0, 3)));
}

#[test]
fn everything_is_written_into_a_buffer_made_anew() {
    let mut c = CullState::new();
    c.instance_add(instance(1));
    c.instance_add(instance(2));
    c.prepare();
    c.set_dynamic(&[instance(3); 1000]);
    let up = c.prepare();
    assert!(up.instances_grew);
    assert_eq!((up.static_write, up.dynamic_at), (Some((0, 2)), Some(2)));
    c.instance_remove(1);
    let up = c.prepare();
    assert!(!up.instances_grew);
    assert_eq!((up.static_write, up.dynamic_at), (Some((1, 1)), Some(2)));
    let mut d = CullState::new();
    d.set_dynamic(&[instance(3); 1000]);
    assert_eq!(d.prepare().static_write, None);
}

#[test]
fn culling_waits_for_its_tables() {
    let mut c = CullState::new();
    assert_eq!(c.dispatch(), None);
    c.instance_add(instance(0));
    c.prepare();
    assert_eq!(c.dispatch(), None);
    c.register_model(1, &[lod(0, 1)], &[section(0)], &[material()]);
    c.set_dynamic(&[instance(0); 64]);
    let up = c.prepare();
    assert!(up.tables && up.models_grew && up.lods_grew && up.sections_grew && up.section_materials_grew);
    assert_eq!(c.dispatch(), Some(2));
    assert_eq!(c.variant_capacity(), 65536);
}

#[test]
fn culling_sees_from_the_camera() {
    let inputs = CullInputs { objects_z: 1, lod_scale: 2, lod_inv_width: 3, pixel_limit: 4 };
    let p = params_from_camera([[7; 4]; 6], [1, 2, 3], 9, inputs);
    assert_eq!(p.frustum, [[7; 4]; 6]);
    assert_eq!(p.cam_pos, [1, 2, 3, 0]);
    assert_eq!((p.objects_z2, p.lod_scale, p.lod_inv_width, p.pixel_limit), (9, 2, 3, 4));
    assert_eq!((p.instance_count, p.variant_capacity, p.variant_count), (0, 0, 0));
    let mut c = CullState::new();
    c.set_params(p);
    assert_eq!(c.params.objects_z2, 9);
    let d = CullInputs::default();
    assert_eq!(f32::from_bits(d.objects_z), 900.0);
    assert_eq!(gpu_group1_layout().len(), 3);
    let (color, normals) = build_gpu_pipeline(true);
    assert!(color.linear && !normals.linear);
    assert_eq!(normals.target, ColorTarget::Normals);
}
