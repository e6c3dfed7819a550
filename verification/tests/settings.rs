use wgpu_renderer::bits::{clamp, eq, lt};
use wgpu_renderer::buffers::{stride_for, Growable};
use wgpu_renderer::desc::{AddressMode, FilterMode, GpuFormat, ResourcePlan};
use wgpu_renderer::ffi::{FrameOutcome, WgrPlatform, WgrSky, WgrSlice};
use wgpu_renderer::gfx2d::flat::flat_resources;
use wgpu_renderer::gfx3d::cull::cull_resources;
use wgpu_renderer::gfx3d::resources::{
    mesh_pipeline_groups, scene_resources, shadow_pipeline_groups, shadow_pipeline_position,
    shadow_pipelines, GroupSource,
};
use wgpu_renderer::gfx3d::sky_vis::{SkyVisSettings, WgrSkyVis};
use wgpu_renderer::grass::{
    grass_pipeline, grass_resources, Grass, GrassLevel, GrassPass, WgrGrassParams,
};
use wgpu_renderer::grid::build_grid;
use wgpu_renderer::handles::{build_handles, HandleError, WgrSurfaceDesc, WindowHandles};
use wgpu_renderer::math::{div_ceil_u32, next_power_of_two};
use wgpu_renderer::samplers::{make_sampler, texture_resources};
use wgpu_renderer::sky::{lut_key, sky_resources, LutPass, Sky};
use wgpu_renderer::startup::{flag, sample_count, settle, AdapterCaps, EnvFlags, StartupError};
use wgpu_renderer::terrain::{clamp_indices, terrain_resources, Terrain};
use wgpu_renderer::underwater::{underwater_resources, Underwater, UnderwaterFrame};

fn sky() -> WgrSky {
    WgrSky {
        sun_dir: [1, 2, 3, 4],
        moon_dir: [0; 4],
        rayleigh: [10, 11, 12, 13],
        mie: [20, 21, 22, 23],
        ground_albedo: [30, 31, 32, 33],
        params: [40, 41, 42, 43],
        control: [50, 51, 52, 53],
        fog_color: [0; 4],
        night_zenith: [0; 4],
        night_horizon: [0; 4],
        night_params: [0; 4],
    }
}

fn caps() -> AdapterCaps {
    AdapterCaps {
        texture_compression_bc: true,
        binding_arrays: true,
        partially_bound: false,
        indirect_first_instance: true,
        multi_draw_count: true,
    }
}

fn no_flags() -> EnvFlags<'static> {
    EnvFlags { prepass: None, skin_bake: None, indirect: None, gpu_driven: None, hdr: None, msaa: None }
}

fn fits(plan: &ResourcePlan) {
    for group in &plan.groups {
        let layout = &plan.layouts[group.layout];
        assert_eq!(layout.len(), group.entries.len());
        for (slot, entry) in layout.iter().zip(&group.entries) {
            assert_eq!(slot.binding, entry.binding);
        }
    }
}

#[test]
fn default_absorption_keeps_useful_midrange_visibility() {
    let extinction_scale = (0.16_f32 * 2.5).max(0.12);
    let transmission = |sigma: f32, distance: f32| (-sigma * extinction_scale * distance).exp();

    assert!(transmission(0.280, 10.0) > 0.30);
    assert!(transmission(0.065, 10.0) > 0.75);
    assert!(transmission(0.020, 30.0) > 0.75);
}

#[test]
fn patterns_compare_as_their_numbers() {
    let numbers = [
        0.0f32,
        -0.0,
        1.0,
        -1.0,
        0.1,
        f32::MIN_POSITIVE,
        -f32::MIN_POSITIVE,
        f32::MAX,
        f32::MIN,
        f32::INFINITY,
        f32::NEG_INFINITY,
        f32::NAN,
        -f32::NAN,
        1e-45,
        128.5,
    ];
    for a in numbers {
        for b in numbers {
            assert_eq!(lt(a.to_bits(), b.to_bits()), a < b);
            assert_eq!(eq(a.to_bits(), b.to_bits()), a == b);
        }
        let clamped = clamp(a.to_bits(), 0.25f32.to_bits(), 2.0f32.to_bits());
        assert_eq!(clamped, a.clamp(0.25, 2.0).to_bits());
        assert_eq!(clamp(clamped, 0.25f32.to_bits(), 2.0f32.to_bits()), clamped);
    }
}

#[test]
fn buffers_grow_in_powers_of_two() {
    let mut g = Growable::absent();
    assert!(g.ensure(100, 4096));
    assert_eq!(g.cap, 4096);
    assert!(!g.ensure(4096, 4096));
    assert!(g.ensure(4097, 4096));
    assert_eq!(g.cap, 8192);
    assert!(!g.ensure(1, 4096));
    assert_eq!(g.cap, 8192);
}

#[test]
fn strides_are_whole_alignments() {
    assert_eq!(stride_for(576, 256), 768);
    assert_eq!(stride_for(80, 256), 256);
    assert_eq!(stride_for(8192, 64), 8192);
    assert_eq!(stride_for(80, 0), 80);
    assert_eq!(stride_for(576, 1024), 1024);
}

#[test]
fn whole_numbers_round_up() {
    assert_eq!(div_ceil_u32(0, 4), 0);
    assert_eq!(div_ceil_u32(1, 4), 1);
    assert_eq!(div_ceil_u32(u32::MAX, 2), 0x8000_0000);
    assert_eq!(next_power_of_two(0), 1);
    assert_eq!(next_power_of_two(1), 1);
    assert_eq!(next_power_of_two(5), 8);
    assert_eq!(next_power_of_two(0x8000_0000_0000_0000), 0x8000_0000_0000_0000);
}

#[test]
fn switches_are_off_only_at_zero() {
    assert!(flag(None, true));
    assert!(!flag(None, false));
    assert!(!flag(Some("0"), true));
    assert!(flag(Some("1"), false));
    assert!(flag(Some("off"), true));
    assert!(flag(Some("0 "), true));
}

#[test]
fn a_renderer_needs_arrays_of_textures() {
    let mut poor = caps();
    poor.binding_arrays = false;
    assert_eq!(settle(poor, &no_flags()), Err(StartupError::NoBindingArrays));
    let s = settle(caps(), &no_flags()).unwrap();
    assert_eq!(s.object_texture_cap, 8192);
    assert_eq!(s.max_array_elements, 8256);
    assert_eq!(s.max_array_samplers, 8);
    assert_eq!(s.max_bind_groups, 5);
    assert!(s.hdr_enabled && s.prepass_enabled && s.indirect_enabled && s.gpu_driven_counted);
    assert!(!s.skin_bake_enabled);
}

#[test]
fn indirect_drawing_needs_first_instances() {
    let mut c = caps();
    c.indirect_first_instance = false;
    let s = settle(c, &no_flags()).unwrap();
    assert!(!s.indirect_enabled && !s.gpu_driven_enabled && !s.gpu_driven_counted);
    c.indirect_first_instance = true;
    c.multi_draw_count = false;
    let s = settle(c, &no_flags()).unwrap();
    assert!(s.gpu_driven_enabled && !s.gpu_driven_counted);
}

#[test]
fn samples_need_a_scene_of_its_own() {
    let mut flags = no_flags();
    let s = settle(caps(), &flags).unwrap();
    assert_eq!(sample_count(&s, true), 4);
    assert_eq!(sample_count(&s, false), 1);
    flags.msaa = Some(8);
    assert_eq!(sample_count(&settle(caps(), &flags).unwrap(), true), 8);
    flags.hdr = Some("0");
    assert_eq!(sample_count(&settle(caps(), &flags).unwrap(), true), 1);
    flags.hdr = None;
    flags.msaa = Some(0);
    assert_eq!(sample_count(&settle(caps(), &flags).unwrap(), true), 1);
}

#[test]
fn windows_are_named_per_platform() {
    let mut desc = WgrSurfaceDesc {
        platform: WgrPlatform::Win32,
        window: 0,
        display: 0,
        width: 1,
        height: 1,
    };
    assert_eq!(build_handles(&desc), Err(HandleError::NoWin32Window));
    desc.platform = WgrPlatform::Xlib;
    assert_eq!(build_handles(&desc), Err(HandleError::NoXlibWindow));
    desc.platform = WgrPlatform::Wayland;
    assert_eq!(build_handles(&desc), Err(HandleError::NoWaylandSurface));
    desc.window = 7;
    assert_eq!(build_handles(&desc), Err(HandleError::NoWaylandDisplay));
    desc.display = 8;
    assert_eq!(build_handles(&desc), Ok(WindowHandles::Wayland { surface: 7, display: 8 }));
    desc.platform = WgrPlatform::Xlib;
    assert_eq!(build_handles(&desc), Ok(WindowHandles::Xlib { window: 7, display: Some(8) }));
    desc.display = 0;
    assert_eq!(build_handles(&desc), Ok(WindowHandles::Xlib { window: 7, display: None }));
    desc.platform = WgrPlatform::Win32;
    assert_eq!(build_handles(&desc), Ok(WindowHandles::Win32 { window: 7 }));
}

#[test]
fn missing_windows_are_explained() {
    assert_eq!(HandleError::NoWin32Window.message(), "win32: null HWND");
    assert_eq!(HandleError::NoXlibWindow.message(), "xlib: null window");
    assert_eq!(HandleError::NoWaylandSurface.message(), "wayland: null wl_surface");
    assert_eq!(HandleError::NoWaylandDisplay.message(), "wayland: null wl_display");
}

#[test]
fn lent_lists_may_be_missing() {
    let data = [1u32, 2, 3];
    assert_eq!(WgrSlice { data: Some(&data), len: 2 }.as_slice(), &[1, 2]);
    assert_eq!(WgrSlice::<u32> { data: None, len: 0 }.as_slice().len(), 0);
    assert_eq!(WgrSlice { data: Some(&data), len: 0 }.as_slice().len(), 0);
}

#[test]
fn outcomes_have_their_codes() {
    assert_eq!(FrameOutcome::Missing.code(), -1);
    assert_eq!(FrameOutcome::Rendered.code(), 0);
    assert_eq!(FrameOutcome::Failed.code(), -2);
    assert_eq!(FrameOutcome::Panicked.code(), -3);
}

#[test]
fn the_grid_has_walls_below_its_border() {
    let grid = build_grid();
    assert_eq!(grid.verts.len(), 33 * 33 + 4 * 32 * 2);
    assert_eq!(grid.indices.len(), 32 * 32 * 6 + 4 * 32 * 6);
    assert_eq!(grid.indices[..6], [0, 33, 1, 1, 33, 34]);
    assert_eq!(grid.verts[34], [1, 1, 0]);
    for wall in 0..128 {
        let k = 6144 + 6 * wall;
        let at = |i: usize| grid.verts[grid.indices[i] as usize];
        let (top0, low0) = (at(k), at(k + 1));
        let (top1, low1) = (at(k + 2), at(k + 5));
        assert_eq!((top0[0], top0[1], top0[2], 1), (low0[0], low0[1], 0, low0[2]));
        assert_eq!((top1[0], top1[1], top1[2], 1), (low1[0], low1[1], 0, low1[2]));
    }
    assert!(grid.indices.iter().all(|&i| (i as usize) < grid.verts.len()));
}

#[test]
fn the_grid_walls_follow_the_border_side_by_side() {
    let grid = build_grid();
    let b = 32 * 33;
    assert_eq!(grid.indices[6144], 0);
    assert_eq!(grid.indices[6146], 1);
    assert_eq!(grid.indices[6150], b);
    assert_eq!(grid.indices[6156], 0);
    assert_eq!(grid.indices[6158], 33);
    assert_eq!(grid.indices[6162], 32);
    assert_eq!(grid.indices[6164], 65);
}

#[test]
fn ground_maps_must_be_filled() {
    let mut t = Terrain::new(false, 4096);
    assert!(t.set_heightmap(0, 4, 100).is_none());
    assert!(t.set_heightmap(4, 0, 100).is_none());
    assert!(t.set_heightmap(4097, 1, 5000).is_none());
    assert!(t.set_heightmap(4, 4, 15).is_none());
    assert!(!t.have_heightmap);
    let up = t.set_heightmap(4, 5, 25).unwrap();
    assert!(t.have_heightmap);
    assert_eq!((up.bytes_per_row, up.values), (16, 20));
    assert_eq!(up.texture.format, GpuFormat::R32Float);
    assert!(t.set_heightmap(0, 0, 0).is_none());
    assert!(t.have_heightmap);
    let mut cells = [7u16; 25];
    cells[..4].copy_from_slice(&[511, 512, 0x8000 + 511, 0xffff]);
    assert!(t.set_index_map(5, 6, &cells).is_none());
    assert!(t.set_index_map(0, 5, &cells).is_none());
    let (up, written) = t.set_index_map(4, 5, &cells).unwrap();
    assert_eq!((up.bytes_per_row, up.values), (8, 20));
    assert_eq!(up.texture.format, GpuFormat::R16Uint);
    assert_eq!(written.len(), 20);
    assert_eq!(written[..5], [511, 511, 0x8000 + 511, 0x8000 + 511, 7]);
    assert_eq!(clamp_indices(&[0, 0x8000, 0x7fff]), [0, 0x8000, 511]);
    assert!(t.set_jitter_map(4, 5, 39).is_none());
    let up = t.set_jitter_map(4, 5, 40).unwrap();
    assert_eq!((up.bytes_per_row, up.values), (8, 40));
    assert_eq!(up.texture.format, GpuFormat::Rg8Snorm);
}

#[test]
fn ground_layers_are_cut_and_filled_up() {
    let mut t = Terrain::new(false, 4096);
    let bound = t.make_group2();
    assert_eq!(bound.len(), 512);
    t.set_ground_layers(&[5, 6]);
    let bound = t.make_group2();
    assert_eq!((bound.len(), bound[0], bound[1], bound[2]), (512, 5, 6, 0));
    t.set_ground_layers(&[]);
    assert_eq!(t.ground_layers, [0]);
    t.set_ground_layers(&[9; 600]);
    assert_eq!(t.ground_layers.len(), 512);
    let mut p = Terrain::new(true, 4096);
    p.set_ground_layers(&[5, 6]);
    assert_eq!(p.make_group2(), [5, 6]);
    assert_eq!(p.set_detail_layer(0), None);
    assert_eq!(p.set_detail_layer(3), Some(3));
}

#[test]
fn ground_is_drawn_where_its_nodes_are() {
    let mut t = Terrain::new(false, 4096);
    t.prepare(10);
    assert_eq!(t.draw(0, 10), None);
    t.set_heightmap(1, 1, 1);
    assert_eq!(t.draw(0, 10), Some((0, 10)));
    assert_eq!(t.draw(9, 1), Some((9, 10)));
    assert_eq!(t.draw(9, 2), None);
    assert_eq!(t.draw(9, 0), None);
    assert!(t.prepare(100));
    assert_eq!(t.instances.cap, 4096);
}

fn grass_params() -> WgrGrassParams {
    WgrGrassParams {
        density: 2.0f32.to_bits(),
        spacing: 0.0f32.to_bits(),
        near_radius: 1000.0f32.to_bits(),
        enabled: 5.0f32.to_bits(),
        blade_height: 1.5f32.to_bits(),
        wind_strength: (-1.0f32).to_bits(),
        wind_direction: 77,
        far_radius: 6000.0f32.to_bits(),
        interactor_x: 1,
        interactor_z: 2,
        interactor_radius: 17.0f32.to_bits(),
        interactor_strength: f32::NAN.to_bits(),
        tracks: vec![[1, 2, 3, 4]],
        debug_ignore_geography_exclusions: 9,
    }
}

#[test]
fn grass_is_kept_within_bounds() {
    let (mut grass, first) = Grass::new(None, None, None, 2);
    assert!(grass.enabled);
    assert_eq!(f32::from_bits(first.density), 0.99);
    assert_eq!(f32::from_bits(first.near_radius), 50.0);
    assert_eq!(f32::from_bits(first.spacing), 0.25);
    assert_eq!(first.tracks, [[0; 4], [0; 4]]);
    let kept = grass.set_params(grass_params());
    assert_eq!(f32::from_bits(kept.density), 1.0);
    assert_eq!(f32::from_bits(kept.spacing), 0.10);
    assert_eq!(f32::from_bits(kept.near_radius), 128.0);
    assert_eq!(f32::from_bits(kept.enabled), 1.0);
    assert_eq!(f32::from_bits(kept.blade_height), 1.5);
    assert_eq!(f32::from_bits(kept.wind_strength), 0.0);
    assert_eq!(f32::from_bits(kept.far_radius), 5000.0);
    assert_eq!(f32::from_bits(kept.interactor_radius), 16.0);
    assert!(f32::from_bits(kept.interactor_strength).is_nan());
    assert_eq!(kept.tracks, [[1, 2, 3, 4]]);
    let mut off = grass_params();
    off.enabled = (-0.0f32).to_bits();
    assert_eq!(grass.set_params(off).enabled, 0);
    assert!(!grass.enabled);
}

#[test]
fn grass_starts_as_the_environment_says() {
    let (grass, first) = Grass::new(Some("0"), Some(3.0f32.to_bits()), Some(1.0f32.to_bits()), 0);
    assert!(!grass.enabled);
    assert_eq!(f32::from_bits(first.density), 1.0);
    assert_eq!(f32::from_bits(first.near_radius), 8.0);
    assert_eq!(first.enabled, 0);
    let (_, far) = Grass::new(None, None, Some(100.0f32.to_bits()), 0);
    assert_eq!(f32::from_bits(far.far_radius), 60.0);
}

#[test]
fn grass_grows_where_there_is_ground() {
    let (mut grass, _) = Grass::new(None, None, None, 0);
    assert!(grass.dispatch().is_empty());
    assert!(grass.draw(GrassPass::Color).is_empty());
    assert!(grass.prepare_terrain(true, 0));
    assert!(!grass.prepare_terrain(true, 0));
    assert_eq!(
        grass.dispatch(),
        [(GrassLevel::Near, 64), (GrassLevel::Mid, 48), (GrassLevel::Far, 48)]
    );
    assert_eq!(
        grass.draw(GrassPass::ColorNoWrite),
        [GrassLevel::Far, GrassLevel::Mid, GrassLevel::Near]
    );
    assert_eq!(grass.draw(GrassPass::Prepass), [GrassLevel::Mid, GrassLevel::Near]);
    assert_eq!(grass.reset_indirect(GrassLevel::Near), [60, 0, 0, 0]);
    assert_eq!(grass.reset_indirect(GrassLevel::Mid), [24, 0, 0, 0]);
    assert_eq!(grass.reset_indirect(GrassLevel::Far), [3, 0, 0, 0]);
    assert!(grass.set_geography(0, 3, 9).is_none());
    assert!(grass.set_geography(3, 3, 8).is_none());
    let (texture, row, values) = grass.set_geography(3, 3, 9).unwrap();
    assert_eq!((texture.format, row, values), (GpuFormat::R32Uint, 12, 9));
}

#[test]
fn far_grass_hides_nothing() {
    assert!(grass_pipeline(GrassLevel::Far, GrassPass::Prepass).is_none());
    let far = grass_pipeline(GrassLevel::Far, GrassPass::Color).unwrap();
    assert!(!far.depth.unwrap().write);
    let near = grass_pipeline(GrassLevel::Near, GrassPass::Color).unwrap();
    assert!(near.depth.unwrap().write);
    let over = grass_pipeline(GrassLevel::Mid, GrassPass::ColorNoWrite).unwrap();
    assert!(!over.depth.unwrap().write);
}

#[test]
fn every_blade_has_room_on_the_device() {
    let plan = grass_resources(64, 128);
    assert_eq!(plan.buffers[2].size, 512 * 512 * 16);
    assert_eq!(plan.buffers[3].size, 384 * 384 * 16);
    assert_eq!(plan.buffers[4].size, 384 * 384 * 16);
}

#[test]
fn tables_of_the_sky_last_while_the_air_does() {
    let mut s = Sky::new(true);
    let first = sky();
    let u = s.upload(&first, [[0; 4]; 4], [9; 4]);
    assert_eq!(u.output, [1.0f32.to_bits(), 0, 0, 0]);
    assert_eq!(u.cam_pos, [9; 4]);
    assert_eq!(s.render_luts(), [LutPass::Transmittance, LutPass::Multiscatter]);
    let mut next = first;
    next.sun_dir = [7; 4];
    next.control[0] = 99;
    next.params[0] = 98;
    next.ground_albedo[3] = 97;
    s.upload(&next, [[0; 4]; 4], [9; 4]);
    assert!(s.render_luts().is_empty());
    next.control[3] = 54;
    s.upload(&next, [[0; 4]; 4], [9; 4]);
    assert_eq!(s.render_luts().len(), 2);
    next.mie[1] = f32::NAN.to_bits();
    s.upload(&next, [[0; 4]; 4], [9; 4]);
    assert_eq!(s.render_luts().len(), 2);
    s.upload(&next, [[0; 4]; 4], [9; 4]);
    assert_eq!(s.render_luts().len(), 2);
}

#[test]
fn tables_depend_on_the_air_alone() {
    assert_eq!(
        lut_key(&sky()),
        [10, 11, 12, 13, 20, 21, 22, 23, 30, 31, 32, 42, 43, 53]
    );
    let mut dim = Sky::new(false);
    assert_eq!(dim.upload(&sky(), [[0; 4]; 4], [0; 4]).output, [0; 4]);
    assert_eq!(dim.render_froxel(), (4, 4));
}

#[test]
fn light_in_the_water_needs_written_textures() {
    let frame = UnderwaterFrame {
        time: 1,
        cam_above: 2,
        camera_pos: [3, 4, 5],
        inv_view_proj: [0; 16],
        shallow_color: [6, 7, 8, 9],
        deep_color: [0; 4],
        sun_dir: [10, 11, 12],
        sun_radiance: [13, 14, 15],
        cascade_lengths: [0; 4],
        active_layers: 16,
        warp_amp: 17,
        sea_level: 18,
        debug_view: 19,
    };
    let with = Underwater::new(true);
    let (p, shadows) = with.upload(&frame);
    assert!(shadows);
    assert_eq!(p.time_height_range_ext, [1, 2, 120.0f32.to_bits(), 9]);
    assert_eq!(p.camera_pos_layers, [3, 4, 5, 16]);
    assert_eq!(p.sun_dir_debug, [10, 11, 12, 19]);
    assert_eq!(p.sun_radiance, [13, 14, 15, 0]);
    assert_eq!(p.water_controls, [17, 18, 0, 0]);
    assert_eq!(with.render_froxel(), Some((4, 3)));
    assert_eq!(with.render_caustics(), Some((16, 16)));
    let without = Underwater::new(false);
    assert!(!without.upload(&frame).1);
    assert_eq!(without.render_froxel(), None);
    assert_eq!(without.render_caustics(), None);
}

#[test]
fn groups_fill_their_layouts() {
    fits(&terrain_resources());
    fits(&grass_resources(64, 128));
    fits(&sky_resources(32));
    fits(&underwater_resources(true, 32));
    fits(&underwater_resources(false, 32));
    fits(&scene_resources(32, 48));
    fits(&texture_resources(0));
    fits(&cull_resources());
    fits(&flat_resources());
    assert_eq!(underwater_resources(false, 32).groups.len(), 1);
    assert_eq!(texture_resources(0).layouts[1][0].count, 1);
}

#[test]
fn samplers_follow_their_bits() {
    let plain = make_sampler(0);
    assert_eq!(plain.address_u, AddressMode::Repeat);
    assert_eq!(plain.address_v, AddressMode::Repeat);
    assert_eq!((plain.filter, plain.anisotropy), (FilterMode::Linear, 16));
    let u = make_sampler(1);
    assert_eq!((u.address_u, u.address_v), (AddressMode::ClampToEdge, AddressMode::Repeat));
    let v = make_sampler(2);
    assert_eq!((v.address_u, v.address_v), (AddressMode::Repeat, AddressMode::ClampToEdge));
    let point = make_sampler(4);
    assert_eq!((point.filter, point.mipmap, point.anisotropy), (FilterMode::Nearest, FilterMode::Nearest, 1));
    for a in 0..8 {
        for b in 0..8 {
            assert_eq!(make_sampler(a) == make_sampler(b), a == b);
        }
    }
}

#[test]
fn casters_find_their_pipelines() {
    let all = shadow_pipelines();
    for (skinned, cutout) in [(false, false), (false, true), (true, false), (true, true)] {
        let p = all[shadow_pipeline_position(skinned, cutout)];
        assert_eq!((p.skinned, p.cutout, p.depth_bias), (skinned, cutout, 4));
        assert_eq!(f32::from_bits(p.slope_scale), 2.5);
    }
    assert_eq!(mesh_pipeline_groups(false)[1], GroupSource::Scene(1));
    assert_eq!(mesh_pipeline_groups(true)[1], GroupSource::Scene(2));
    assert_eq!(shadow_pipeline_groups(false)[1], GroupSource::Scene(5));
    assert_eq!(shadow_pipeline_groups(true)[1], GroupSource::Scene(6));
}

#[test]
fn roofs_darken_within_bounds() {
    let mut s = SkyVisSettings::default();
    assert!(!s.enabled && !s.debug);
    assert_eq!(s.resolution, 1024);
    assert_eq!(f32::from_bits(s.extent), 128.0);
    assert_eq!(f32::from_bits(s.height), 300.0);
    assert_eq!(f32::from_bits(s.floor), 0.35);
    assert_eq!(f32::from_bits(s.kernel), 1.5);
    assert_eq!(f32::from_bits(s.bias), 0.25);
    s.apply(&WgrSkyVis {
        enabled: 2,
        resolution: 10,
        extent: 1.0f32.to_bits(),
        height: 9999.0f32.to_bits(),
        strength: 0.5f32.to_bits(),
        floor: (-1.0f32).to_bits(),
        kernel: 33.0f32.to_bits(),
        bias: 17.0f32.to_bits(),
        debug: 1,
    });
    assert!(s.enabled && s.debug);
    assert_eq!(s.resolution, 256);
    assert_eq!(f32::from_bits(s.extent), 16.0);
    assert_eq!(f32::from_bits(s.height), 4096.0);
    assert_eq!(f32::from_bits(s.strength), 0.5);
    assert_eq!(f32::from_bits(s.floor), 0.0);
    assert_eq!(f32::from_bits(s.kernel), 32.0);
    assert_eq!(f32::from_bits(s.bias), 16.0);
    s.apply(&WgrSkyVis {
        enabled: 0,
        resolution: 9999,
        extent: 4096.0f32.to_bits(),
        height: 0,
        strength: 2.0f32.to_bits(),
        floor: 2.0f32.to_bits(),
        kernel: 0,
        bias: 0,
        debug: 0,
    });
    assert_eq!(s.resolution, 4096);
    assert_eq!(f32::from_bits(s.extent), 2048.0);
}
