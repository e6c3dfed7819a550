use crate::bits::{
    clamp, clamp_is_idempotent_and_bounded, clamping_keeps_what_is_within, float_clamp, is_bounded,
    ONE,
};
use crate::math::{max_u32, min_u32};
use vstd::prelude::*;

verus! {

/// What the engine asks of the darkening under roofs, as bit patterns.
#[derive(Clone, Copy, Debug, PartialEq, Eq, Structural)]
pub struct WgrSkyVis {
    pub enabled: u32,
    pub resolution: u32,
    pub extent: u32,
    pub height: u32,
    pub strength: u32,
    pub floor: u32,
    pub kernel: u32,
    pub bias: u32,
    pub debug: u32,
}

/// The darkening under roofs: how much of the sky reaches a place.
#[derive(Clone, Copy, Debug, PartialEq, Eq, Structural)]
pub struct SkyVisSettings {
    pub enabled: bool,
    /// Texels along each side of the map.
    pub resolution: u32,
    /// Half of what the map covers along each side, in metres.
    pub extent: u32,
    /// How far the map reaches above and below the camera, in metres.
    pub height: u32,
    /// How much of the effect is seen.
    pub strength: u32,
    /// What is left where no sky is seen.
    pub floor: u32,
    /// How far light reaches in, in metres.
    pub kernel: u32,
    /// How much lower than itself a surface is taken to be, in metres.
    pub bias: u32,
    /// What reaches a place is shown instead of what it does.
    pub debug: bool,
}

/// Bounds of the settings: sixteen, thirty-two, two thousand and forty-eight, and twice that.
pub const SIXTEEN: u32 = 0x4180_0000;

pub const THIRTY_TWO: u32 = 0x4200_0000;

pub const EXTENT_MAX: u32 = 0x4500_0000;

pub const HEIGHT_MAX: u32 = 0x4580_0000;

pub const RESOLUTION_MIN: u32 = 256;

pub const RESOLUTION_MAX: u32 = 4096;

impl SkyVisSettings {
    /// Off; and, once switched on, a map of a quarter metre to the texel.
    pub open spec fn spec_default() -> SkyVisSettings {
        SkyVisSettings {
            enabled: false,
            resolution: 1024,
            extent: 0x4300_0000,
            height: 0x4396_0000,
            strength: ONE,
            floor: 0x3eb3_3333,
            kernel: 0x3fc0_0000,
            bias: 0x3e80_0000,
            debug: false,
        }
    }

    /// The settings that are asked for, within their bounds.
    pub open spec fn applied(p: WgrSkyVis) -> SkyVisSettings {
        SkyVisSettings {
            enabled: p.enabled != 0,
            resolution: if p.resolution < RESOLUTION_MIN {
                RESOLUTION_MIN
            } else if p.resolution > RESOLUTION_MAX {
                RESOLUTION_MAX
            } else {
                p.resolution
            },
            extent: float_clamp(p.extent, SIXTEEN, EXTENT_MAX),
            height: float_clamp(p.height, SIXTEEN, HEIGHT_MAX),
            strength: float_clamp(p.strength, 0, ONE),
            floor: float_clamp(p.floor, 0, ONE),
            kernel: float_clamp(p.kernel, 0, THIRTY_TWO),
            bias: float_clamp(p.bias, 0, SIXTEEN),
            debug: p.debug != 0,
        }
    }

    /// Takes what the engine asks for.
    pub fn apply(&mut self, p: &WgrSkyVis)
        ensures
            *final(self) == SkyVisSettings::applied(*p),
    {
        self.enabled = p.enabled != 0;
        self.resolution = min_u32(max_u32(p.resolution, RESOLUTION_MIN), RESOLUTION_MAX);
        self.extent = clamp(p.extent, SIXTEEN, EXTENT_MAX);
        self.height = clamp(p.height, SIXTEEN, HEIGHT_MAX);
        self.strength = clamp(p.strength, 0, ONE);
        self.floor = clamp(p.floor, 0, ONE);
        self.kernel = clamp(p.kernel, 0, THIRTY_TWO);
        self.bias = clamp(p.bias, 0, SIXTEEN);
        self.debug = p.debug != 0;
    }
}

impl Default for SkyVisSettings {
    fn default() -> (s: SkyVisSettings)
        ensures
            s == SkyVisSettings::spec_default(),
    {
        SkyVisSettings {
            enabled: false,
            resolution: 1024,
            extent: 0x4300_0000,
            height: 0x4396_0000,
            strength: ONE,
            floor: 0x3eb3_3333,
            kernel: 0x3fc0_0000,
            bias: 0x3e80_0000,
            debug: false,
        }
    }
}

/// The settings as the engine would ask for them.
pub open spec fn asked(s: SkyVisSettings) -> WgrSkyVis {
    WgrSkyVis {
        enabled: if s.enabled {
            1
        } else {
            0
        },
        resolution: s.resolution,
        extent: s.extent,
        height: s.height,
        strength: s.strength,
        floor: s.floor,
        kernel: s.kernel,
        bias: s.bias,
        debug: if s.debug {
            1
        } else {
            0
        },
    }
}

/// Settings that were applied stay as they are when they are asked for again, and so does what
/// the settings are before anything is asked for.
pub proof fn applied_settings_stay(p: WgrSkyVis)
    ensures
        SkyVisSettings::applied(asked(SkyVisSettings::applied(p))) == SkyVisSettings::applied(p),
        SkyVisSettings::applied(asked(SkyVisSettings::spec_default()))
            == SkyVisSettings::spec_default(),
{
    clamp_is_idempotent_and_bounded(p.extent, SIXTEEN, EXTENT_MAX);
    clamp_is_idempotent_and_bounded(p.height, SIXTEEN, HEIGHT_MAX);
    clamp_is_idempotent_and_bounded(p.strength, 0, ONE);
    clamp_is_idempotent_and_bounded(p.floor, 0, ONE);
    clamp_is_idempotent_and_bounded(p.kernel, 0, THIRTY_TWO);
    clamp_is_idempotent_and_bounded(p.bias, 0, SIXTEEN);
}

/// Every setting is kept within bounds of its own: a map of two hundred and fifty-six to four
/// thousand and ninety-six texels; of sixteen to two thousand and forty-eight metres, up to twice
/// that in height; strength and floor up to one; light that reaches in up to thirty-two metres, and
/// surfaces that are lowered by up to sixteen. Switches are on unless they are zero.
pub proof fn settings_are_bounded(p: WgrSkyVis)
    ensures
        ({
            let s = SkyVisSettings::applied(p);
            &&& s.enabled <==> p.enabled != 0
            &&& s.debug <==> p.debug != 0
            &&& 256 <= s.resolution <= 4096
            &&& 256 <= p.resolution <= 4096 ==> s.resolution == p.resolution
            &&& p.resolution < 256 ==> s.resolution == 256
            &&& p.resolution > 4096 ==> s.resolution == 4096
            &&& is_bounded(p.extent, s.extent, 0x4180_0000, 0x4500_0000)
            &&& is_bounded(p.height, s.height, 0x4180_0000, 0x4580_0000)
            &&& is_bounded(p.strength, s.strength, 0, 0x3f80_0000)
            &&& is_bounded(p.floor, s.floor, 0, 0x3f80_0000)
            &&& is_bounded(p.kernel, s.kernel, 0, 0x4200_0000)
            &&& is_bounded(p.bias, s.bias, 0, 0x4180_0000)
        }),
{
    clamping_keeps_what_is_within(p.extent, SIXTEEN, EXTENT_MAX);
    clamping_keeps_what_is_within(p.height, SIXTEEN, HEIGHT_MAX);
    clamping_keeps_what_is_within(p.strength, 0, ONE);
    clamping_keeps_what_is_within(p.floor, 0, ONE);
    clamping_keeps_what_is_within(p.kernel, 0, THIRTY_TWO);
    clamping_keeps_what_is_within(p.bias, 0, SIXTEEN);
}

} // verus!
