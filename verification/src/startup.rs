use crate::terrain::TERRAIN_MAX_GROUND_LAYERS;
use vstd::prelude::*;
use vstd::string::StrSliceExecFns;

verus! {

/// What the graphics adapter can do.
#[derive(Clone, Copy, Debug, PartialEq, Eq, Structural)]
pub struct AdapterCaps {
    /// Block-compressed textures.
    pub texture_compression_bc: bool,
    /// Arrays of textures, indexed by each pixel for itself.
    pub binding_arrays: bool,
    /// Arrays of textures that are not filled.
    pub partially_bound: bool,
    /// Indirect draws that start at any instance.
    pub indirect_first_instance: bool,
    /// Indirect draws whose number the device counts.
    pub multi_draw_count: bool,
}

/// What the environment asks for; nothing where it does not say.
#[derive(Clone, Copy, Debug)]
pub struct EnvFlags<'a> {
    pub prepass: Option<&'a str>,
    pub skin_bake: Option<&'a str>,
    pub indirect: Option<&'a str>,
    pub gpu_driven: Option<&'a str>,
    pub hdr: Option<&'a str>,
    /// How many samples a pixel has.
    pub msaa: Option<u32>,
}

/// What the renderer does as long as it lives.
#[derive(Clone, Copy, Debug, PartialEq, Eq, Structural)]
pub struct Settings {
    pub bc_supported: bool,
    pub partially_bound: bool,
    pub prepass_enabled: bool,
    pub skin_bake_enabled: bool,
    pub indirect_enabled: bool,
    pub gpu_driven_enabled: bool,
    /// The device counts the draws of what it culls.
    pub gpu_driven_counted: bool,
    pub hdr_enabled: bool,
    /// How many samples are asked for.
    pub msaa_request: u32,
    pub object_texture_cap: u32,
    pub max_array_elements: u32,
    pub max_array_samplers: u32,
    pub max_bind_groups: u32,
}

/// Why there is no renderer.
#[derive(Clone, Copy, Debug, PartialEq, Eq, Structural)]
pub enum StartupError {
    /// The ground is textured from an array of textures.
    NoBindingArrays,
}

/// How many textures objects are drawn with at most.
pub const OBJECT_TEXTURE_CAP: u32 = 8192;

/// Elements asked for beyond the textures: the samplers count among them.
pub const ARRAY_HEADROOM: u32 = 64;

/// The text is a single zero.
pub open spec fn is_zero_text(v: Seq<char>) -> bool {
    v == seq!['0']
}

/// A switch is off if it says zero, and on if it says anything else.
pub open spec fn flag_of(value: Option<&str>, default: bool) -> bool {
    match value {
        Some(v) => !is_zero_text(v@),
        None => default,
    }
}

/// A switch is off if it says zero, and on if it says anything else.
pub fn flag(value: Option<&str>, default: bool) -> (on: bool)
    ensures
        on == flag_of(value, default),
{
    match value {
        Some(v) => {
            if v.unicode_len() != 1 {
                return true;
            }
            let c: char = v.get_char(0);
            proof {
                if c == '0' {
                    assert(v@ =~= seq!['0']);
                }
            }
            c != '0'
        },
        None => default,
    }
}

/// What the renderer is set to.
pub open spec fn settings_of(caps: AdapterCaps, env: &EnvFlags) -> Settings {
    let gpu_driven = caps.indirect_first_instance && flag_of(env.gpu_driven, true);
    Settings {
        bc_supported: caps.texture_compression_bc,
        partially_bound: caps.partially_bound,
        prepass_enabled: flag_of(env.prepass, true),
        skin_bake_enabled: flag_of(env.skin_bake, false),
        indirect_enabled: caps.indirect_first_instance && flag_of(env.indirect, true),
        gpu_driven_enabled: gpu_driven,
        gpu_driven_counted: gpu_driven && caps.multi_draw_count,
        hdr_enabled: flag_of(env.hdr, true),
        msaa_request: match env.msaa {
            Some(n) => n,
            None => 4,
        },
        object_texture_cap: OBJECT_TEXTURE_CAP,
        max_array_elements: (OBJECT_TEXTURE_CAP + ARRAY_HEADROOM) as u32,
        max_array_samplers: 8,
        max_bind_groups: 5,
    }
}

/// Settles what the renderer does; without arrays of textures there is none.
pub fn settle(caps: AdapterCaps, env: &EnvFlags) -> (r: Result<Settings, StartupError>)
    ensures
        r == if caps.binding_arrays {
            Ok(settings_of(caps, env))
        } else {
            Err(StartupError::NoBindingArrays)
        },
{
    if !caps.binding_arrays {
        return Err(StartupError::NoBindingArrays);
    }
    let gpu_driven: bool = caps.indirect_first_instance && flag(env.gpu_driven, true);
    Ok(
        Settings {
            bc_supported: caps.texture_compression_bc,
            partially_bound: caps.partially_bound,
            prepass_enabled: flag(env.prepass, true),
            skin_bake_enabled: flag(env.skin_bake, false),
            indirect_enabled: caps.indirect_first_instance && flag(env.indirect, true),
            gpu_driven_enabled: gpu_driven,
            gpu_driven_counted: gpu_driven && caps.multi_draw_count,
            hdr_enabled: flag(env.hdr, true),
            msaa_request: match env.msaa {
                Some(n) => n,
                None => 4,
            },
            object_texture_cap: OBJECT_TEXTURE_CAP,
            max_array_elements: OBJECT_TEXTURE_CAP + ARRAY_HEADROOM,
            max_array_samplers: 8,
            max_bind_groups: 5,
        },
    )
}

/// How many samples a pixel has: several only where the scene is resolved anyway and every
/// format it is drawn in can have them.
pub fn sample_count(settings: &Settings, all_formats_support_it: bool) -> (n: u32)
    ensures
        n == if settings.hdr_enabled && settings.msaa_request > 1 && all_formats_support_it {
            settings.msaa_request
        } else {
            1
        },
{
    if settings.hdr_enabled && settings.msaa_request > 1 && all_formats_support_it {
        settings.msaa_request
    } else {
        1
    }
}

/// The arrays that objects bind, textures and samplers, stay within what is asked for.
pub proof fn object_arrays_fit(caps: AdapterCaps, env: &EnvFlags)
    ensures
        settings_of(caps, env).object_texture_cap + settings_of(caps, env).max_array_samplers
            <= settings_of(caps, env).max_array_elements,
        TERRAIN_MAX_GROUND_LAYERS <= settings_of(caps, env).object_texture_cap,
{
}

/// The switch was set: it says something, and that is not a single zero.
pub open spec fn is_set(value: Option<&str>) -> bool {
    value matches Some(v) && (v@.len() != 1 || v@[0] != '0')
}

/// The switch was cleared: it says a single zero.
pub open spec fn is_cleared(value: Option<&str>) -> bool {
    value matches Some(v) && v@.len() == 1 && v@[0] == '0'
}

/// Everything is done unless its switch is cleared, but for the baking of skins, which is done only
/// if its switch is set. What an adapter cannot do is not done, whatever the switches say; and what
/// it culls by itself it counts by itself if it can.
pub proof fn switches_do_as_they_say(caps: AdapterCaps, env: &EnvFlags)
    ensures
        ({
            let s = settings_of(caps, env);
            &&& s.prepass_enabled <==> !is_cleared(env.prepass)
            &&& s.hdr_enabled <==> !is_cleared(env.hdr)
            &&& s.skin_bake_enabled <==> is_set(env.skin_bake)
            &&& s.indirect_enabled <==> caps.indirect_first_instance && !is_cleared(env.indirect)
            &&& s.gpu_driven_enabled <==> caps.indirect_first_instance && !is_cleared(
                env.gpu_driven,
            )
            &&& s.gpu_driven_counted <==> s.gpu_driven_enabled && caps.multi_draw_count
            &&& s.bc_supported <==> caps.texture_compression_bc
            &&& s.partially_bound <==> caps.partially_bound
            &&& env.msaa matches Some(n) ==> s.msaa_request == n
            &&& env.msaa is None ==> s.msaa_request == 4
            &&& s.object_texture_cap == 8192
            &&& s.max_array_elements == 8192 + 64
            &&& s.max_array_samplers == 8
            &&& s.max_bind_groups == 5
        }),
{
    a_switch_says_zero(env.prepass);
    a_switch_says_zero(env.hdr);
    a_switch_says_zero(env.skin_bake);
    a_switch_says_zero(env.indirect);
    a_switch_says_zero(env.gpu_driven);
}

proof fn a_switch_says_zero(value: Option<&str>)
    ensures
        flag_of(value, true) <==> !is_cleared(value),
        flag_of(value, false) <==> is_set(value),
{
    if let Some(v) = value {
        if v@.len() == 1 && v@[0] == '0' {
            assert(v@ =~= seq!['0']);
        }
    }
}

} // verus!
