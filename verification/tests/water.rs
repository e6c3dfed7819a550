use wgpu_renderer::ffi::WgrWaterParams;
use wgpu_renderer::water::fft::{
    build_stage_words, fft_resources, Fft, FftStep, SpectrumInputs, COMPOSE_GROUP,
};
use wgpu_renderer::water::surface::{water_pipeline, water_resources, Water};
use wgpu_renderer::desc::{BlendFactor, DepthCompare, Resource};

const TAU: f32 = std::f32::consts::TAU;

fn zeroed_params() -> WgrWaterParams {
    WgrWaterParams {
        world_origin: [0; 2],
        terrain_grid: 0,
        sea_level: 0,
        hm_width: 0,
        hm_height: 0,
        time: 0,
        wave_amp: 0,
        wave_choppy: 0,
        wave_speed: 0,
        wave_scale: 0,
        fade_start: 0,
        fade_end: 0,
        warp_amp: 0,
        spec_power: 0,
        spec_intensity: 0,
        alpha: 0,
        shadow_dim: 0,
        color_ext: 0,
        coast_fade: 0,
        shallow_color: [0; 4],
        deep_color: [0; 4],
        foam_width: 0,
        foam_intensity: 0,
        swash_amp: 0,
        swash_speed: 0,
        fft_control: [0; 4],
        fft_wind_sea: [0; 4],
        fft_cascade_lengths: [0; 4],
    }
}

fn hash(value: u32) -> u32 {
    let mut x = value;
    x = (x ^ (x >> 16)).wrapping_mul(0x7feb_352d);
    x = (x ^ (x >> 15)).wrapping_mul(0x846c_a68b);
    x ^ (x >> 16)
}

fn cascade_transition(k: f32, split: f32) -> f32 {
    let edge0 = split * 0.72;
    let edge1 = split * 1.38;
    let t = ((k - edge0) / (edge1 - edge0)).clamp(0.0, 1.0);
    t * t * (3.0 - 2.0 * t)
}

fn cascade_bands(k: f32, lengths: [f32; 4]) -> [f32; 4] {
    let split = |lower: usize, upper: usize| (TAU / lengths[lower] * TAU / lengths[upper]).sqrt();
    let low_to_mid_low = cascade_transition(k, split(2, 3));
    let mid_low_to_mid_high = cascade_transition(k, split(1, 2));
    let mid_high_to_high = cascade_transition(k, split(0, 1));
    [
        mid_high_to_high,
        mid_low_to_mid_high * (1.0 - mid_high_to_high),
        low_to_mid_low * (1.0 - mid_low_to_mid_high),
        1.0 - low_to_mid_low,
    ]
}

fn swell_angle(seed: u32) -> f32 {
    let random = (hash(seed ^ 0x68bc_21eb) & 0x00ff_ffff) as f32 / 16_777_216.0;
    let sign = if hash(seed ^ 0x02e5_be93) & 1 == 0 {
        1.0
    } else {
        -1.0
    };
    sign * (0.45 + (0.95 - 0.45) * random)
}

fn jonswap_k_shape(k: f32, peak_k: f32, alpha: f32, gamma: f32) -> f32 {
    let ratio = (k / peak_k).max(1e-4);
    let sigma = if ratio <= 1.0 { 0.07 } else { 0.09 };
    let peak = (-0.5 * ((ratio - 1.0) / sigma).powi(2)).exp();
    alpha / 0.0081 * (-1.25 / (ratio * ratio)).exp() * gamma.max(1.0).powf(peak)
        / (k * k * k * k).max(1e-5)
}

fn directional_spreading(alignment: f32, omega: f32, peak_omega: f32, swell: f32) -> f32 {
    let ratio = (omega / peak_omega).max(1e-4);
    let base_s = if ratio <= 1.0 {
        6.97 * ratio.powi(5)
    } else {
        9.77 * ratio.powf(-2.5)
    };
    let s = base_s + 16.0 * (ratio.min(20.0)).tanh() * swell * swell;
    let s2 = s * s;
    let normalization = if s < 5.0 {
        -0.000564 * s2 * s2 + 0.00776 * s2 * s - 0.044 * s2 + 0.192 * s + 0.163
    } else {
        -4.80e-8 * s2 * s2 + 1.07e-5 * s2 * s - 9.53e-4 * s2 + 0.059 * s + 0.393
    };
    normalization * (0.5 * (1.0 + alignment)).max(0.0).powf(s)
}

fn opposite_index(index: u32, size: u32) -> u32 {
    (size - index) % size
}

fn conjugate(value: [f32; 2]) -> [f32; 2] {
    [value[0], -value[1]]
}

fn complex_mul(a: [f32; 2], b: [f32; 2]) -> [f32; 2] {
    [a[0] * b[0] - a[1] * b[1], a[0] * b[1] + a[1] * b[0]]
}

fn evolve_pair(h0: [f32; 2], h0_opposite: [f32; 2], phase: [f32; 2]) -> [f32; 2] {
    let inverse_phase = conjugate(phase);
    let first = complex_mul(h0, phase);
    let second = complex_mul(conjugate(h0_opposite), inverse_phase);
    [first[0] + second[0], first[1] + second[1]]
}

fn evolve_time_derivative(
    h0: [f32; 2],
    h0_opposite: [f32; 2],
    phase: [f32; 2],
    omega: f32,
) -> [f32; 2] {
    let first = complex_mul(h0, phase);
    let second = complex_mul(conjugate(h0_opposite), conjugate(phase));
    [
        -(first[1] - second[1]) * omega,
        (first[0] - second[0]) * omega,
    ]
}

fn horizontal_jacobian_derivatives(
    height: f32,
    kx: f32,
    kz: f32,
    k_length: f32,
    chop: f32,
) -> [f32; 3] {
    let scale = chop / k_length;
    [
        height * kx * kx * scale,
        height * kx * kz * scale,
        height * kz * kz * scale,
    ]
}

#[test]
fn opposite_index_is_an_involution_including_dc_and_nyquist() {
    let size = 256;
    for index in 0..size {
        assert_eq!(opposite_index(opposite_index(index, size), size), index);
    }
    assert_eq!(opposite_index(0, size), 0);
    assert_eq!(opposite_index(size / 2, size), size / 2);
}

#[test]
fn tessendorf_pair_is_hermitian_for_regular_and_self_paired_bins() {
    let phase = [0.6, 0.8];
    let h0 = [1.25, -0.75];
    let h0_opposite = [-0.4, 0.9];
    let h = evolve_pair(h0, h0_opposite, phase);
    let opposite = evolve_pair(h0_opposite, h0, phase);
    assert!((opposite[0] - h[0]).abs() < 1e-6);
    assert!((opposite[1] + h[1]).abs() < 1e-6);

    let self_paired = evolve_pair(h0, h0, phase);
    assert!(self_paired[1].abs() < 1e-6);

    let dhdt = evolve_time_derivative(h0, h0_opposite, phase, 2.0);
    let dhdt_opposite = evolve_time_derivative(h0_opposite, h0, phase, 2.0);
    assert!((dhdt_opposite[0] - dhdt[0]).abs() < 1e-6);
    assert!((dhdt_opposite[1] + dhdt[1]).abs() < 1e-6);

    let self_paired_dhdt = evolve_time_derivative(h0, h0, phase, 2.0);
    assert!(self_paired_dhdt[1].abs() < 1e-6);
}

#[test]
fn only_spectrum_inputs_invalidate_h0() {
    let mut params = zeroed_params();
    let initial = SpectrumInputs::from_params(&params);
    params.time = 42.0f32.to_bits();
    params.wave_speed = 3.0f32.to_bits();
    assert_eq!(SpectrumInputs::from_params(&params), initial);
    params.fft_control[1] = 1337.0f32.to_bits();
    assert_ne!(SpectrumInputs::from_params(&params), initial);
}

#[test]
fn cascade_bands_are_a_smooth_conservative_partition() {
    let lengths = [48.0, 144.0, 432.0, 1296.0];
    for step in 1..=400 {
        let k = 0.002 + step as f32 * 0.05;
        let bands = cascade_bands(k, lengths);
        assert!(bands.iter().all(|weight| (0.0..=1.0).contains(weight)));
        assert!((bands.iter().sum::<f32>() - 1.0).abs() < 1e-5);
    }
    assert!(cascade_bands(0.005, lengths)[3] > 0.9);
    assert!(cascade_bands(1.0, lengths)[0] > 0.9);
}

#[test]
fn swell_direction_is_seeded_and_cross_wind() {
    let angle = swell_angle(1337);
    assert_eq!(angle, swell_angle(1337));
    assert_ne!(angle, swell_angle(1338));
    assert!((0.45..=0.95).contains(&angle.abs()));
}

#[test]
fn jonswap_shape_is_nonnegative_and_peak_enhancement_is_localized() {
    let peak_k = 9.81 / (11.0 * 11.0);
    let gamma_one = jonswap_k_shape(peak_k, peak_k, 0.0081, 1.0);
    let gamma_three = jonswap_k_shape(peak_k, peak_k, 0.0081, 3.0);
    assert!(gamma_one.is_finite() && gamma_one > 0.0);
    assert!(gamma_three > gamma_one * 2.9);
    assert!(jonswap_k_shape(peak_k * 0.1, peak_k, 0.0081, 3.0) < gamma_one);
    assert!(jonswap_k_shape(peak_k * 8.0, peak_k, 0.0081, 3.0) < gamma_one);
}

#[test]
fn directional_spreading_prefers_the_wind_and_remains_nonnegative() {
    let peak_omega = (9.81_f32 * (9.81_f32 / (11.0_f32 * 11.0_f32))).sqrt();
    let forward = directional_spreading(1.0, peak_omega, peak_omega, 0.45);
    let crosswind = directional_spreading(0.0, peak_omega, peak_omega, 0.45);
    let backward = directional_spreading(-1.0, peak_omega, peak_omega, 0.45);
    assert!(forward.is_finite() && forward > crosswind && crosswind > backward);
    assert_eq!(backward, 0.0);
}

#[test]
fn horizontal_displacement_derivatives_have_the_spectral_sign_and_jacobian() {
    // D = -i*h*k/|k|*chop, so dD/dx = i*k*D has h's positive sign.
    let derivatives = horizontal_jacobian_derivatives(2.0, 3.0, -4.0, 5.0, 0.25);
    assert!((derivatives[0] - 0.9).abs() < 1e-6);
    assert!((derivatives[1] + 1.2).abs() < 1e-6);
    assert!((derivatives[2] - 1.6).abs() < 1e-6);

    let jacobian =
        (1.0 + derivatives[0]) * (1.0 + derivatives[2]) - derivatives[1] * derivatives[1];
    assert!((jacobian - 3.5).abs() < 1e-6);
}

#[test]
fn waves_can_be_switched_off() {
    assert!(Fft::new(true, None, 256).is_some());
    assert!(Fft::new(true, Some("1"), 256).is_some());
    assert!(Fft::new(true, Some(""), 256).is_some());
    let mut far = Fft::new(true, None, 0x1000_0000).unwrap();
    let last = far.dispatch().into_iter().rev().nth(1);
    assert_eq!(last, Some(FftStep::Stage { axis: 1, group: 49, offset: 0xf000_0000 }));
    assert!(Fft::new(true, Some("00"), 256).is_some());
    assert!(Fft::new(true, Some("0"), 256).is_none());
    assert!(Fft::new(false, None, 256).is_none());
}

#[test]
fn the_field_is_drawn_once_and_again_when_it_depends_on_the_change() {
    let mut fft = Fft::new(true, None, 256).unwrap();
    let mut params = zeroed_params();
    fft.set_params(&params);
    assert_eq!(fft.dispatch()[0], FftStep::Init);
    params.time = 7;
    fft.set_params(&params);
    assert_eq!(fft.dispatch()[0], FftStep::Evolve);
    params.wave_amp = 1;
    fft.set_params(&params);
    assert_eq!(fft.dispatch()[0], FftStep::Init);
    fft.set_cascade_config();
    assert_eq!(fft.dispatch()[0], FftStep::Init);
    params.fft_cascade_lengths[3] = 5;
    fft.set_params(&params);
    assert_eq!(fft.dispatch()[0], FftStep::Init);
    params.fft_wind_sea[2] = 5;
    fft.set_params(&params);
    assert_eq!(fft.dispatch()[0], FftStep::Init);
}

#[test]
fn stages_run_axis_by_axis() {
    let mut fft = Fft::new(true, None, 256).unwrap();
    let steps = fft.dispatch();
    assert_eq!(steps.len(), 51);
    assert_eq!(steps[2], FftStep::Stage { axis: 0, group: 2, offset: 0 });
    assert_eq!(steps[5], FftStep::Stage { axis: 0, group: 5, offset: 256 });
    assert_eq!(steps[26], FftStep::Stage { axis: 1, group: 26, offset: 2048 });
    assert_eq!(steps[49], FftStep::Stage { axis: 1, group: 49, offset: 3840 });
    assert_eq!(steps[50], FftStep::Compose);
}

#[test]
fn packs_go_back_and_forth() {
    let plan = fft_resources(256);
    assert_eq!(plan.textures.len(), 10);
    assert_eq!(plan.buffers[0].size, 4096);
    assert_eq!(plan.groups.len(), 51);
    for pack in 0..3 {
        let mut at = plan.groups[1].entries[2 + pack].resource;
        for stage in 0..16 {
            let group = &plan.groups[2 + 3 * stage + pack];
            assert_eq!(group.entries[1].resource, at);
            assert_ne!(group.entries[2].resource, at);
            at = group.entries[2].resource;
        }
        assert_eq!(plan.groups[COMPOSE_GROUP].entries[1 + pack].resource, at);
    }
    assert_eq!(plan.groups[0].entries[1].resource, Resource::Texture(6));
}

#[test]
fn stage_parameters_stand_at_their_offsets() {
    let words = build_stage_words(256);
    assert_eq!(words.len(), 1024);
    assert_eq!(words[..5], [256, 0, 0, 0, 0]);
    assert_eq!(words[64 * 9..64 * 9 + 4], [256, 1, 1, 0]);
    assert_eq!(words[64 * 15..64 * 15 + 5], [256, 7, 1, 1, 0]);
}

#[test]
fn water_waits_for_a_map() {
    let mut water = Water::new();
    assert!(!water.prepare(3));
    assert_eq!(water.draw(0, 3), None);
    water.set_params();
    assert_eq!(water.draw(0, 3), Some((0, 3)));
    assert_eq!(water.draw(1, 2), Some((1, 3)));
    assert_eq!(water.draw(1, 3), None);
    assert_eq!(water.draw(0, 0), None);
    assert!(!water.prepare(0));
    assert_eq!(water.draw(0, 1), None);
}

#[test]
fn water_makes_room_for_its_nodes() {
    let mut water = Water::new();
    assert_eq!(water.instances.cap, 1536);
    assert!(!water.prepare(64));
    assert!(water.prepare(65));
    assert_eq!(water.instances.cap, 2048);
    assert!(!water.prepare(1));
}

#[test]
fn water_is_shown_each_view_once() {
    let mut water = Water::new();
    assert!(water.set_depth_view(0));
    assert!(!water.set_depth_view(0));
    assert!(water.set_depth_view(1));
    assert!(water.set_env_view(0));
    assert!(!water.set_env_view(0));
}

#[test]
fn water_is_blended_and_hides_nothing() {
    let p = water_pipeline(true);
    assert_eq!(p.blend.unwrap().color.dst, BlendFactor::OneMinusSrcAlpha);
    let depth = p.depth.unwrap();
    assert!(!depth.write);
    assert_eq!(depth.compare, DepthCompare::GreaterEqual);
    assert!(p.linear);
    let plan = water_resources(256);
    assert_eq!(plan.layouts[0].len(), plan.groups[0].entries.len());
}
