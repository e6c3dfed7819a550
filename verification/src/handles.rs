use crate::ffi::WgrPlatform;
use vstd::prelude::*;

verus! {

/// The window to draw in, as the engine names it: addresses or numbers, zero for none.
#[derive(Clone, Copy, Debug, PartialEq, Eq, Structural)]
pub struct WgrSurfaceDesc {
    pub platform: WgrPlatform,
    pub window: usize,
    pub display: usize,
    pub width: u32,
    pub height: u32,
}

/// A window that can be drawn in.
#[derive(Clone, Copy, Debug, PartialEq, Eq, Structural)]
pub enum WindowHandles {
    Win32 { window: usize },
    /// The display may be left open.
    Xlib { window: usize, display: Option<usize> },
    Wayland { surface: usize, display: usize },
}

/// Why a window cannot be drawn in.
#[derive(Clone, Copy, Debug, PartialEq, Eq, Structural)]
pub enum HandleError {
    NoWin32Window,
    NoXlibWindow,
    NoWaylandSurface,
    NoWaylandDisplay,
}

impl HandleError {
    /// What the caller is told.
    pub fn message(self) -> (m: &'static str)
        ensures
            m@ == match self {
                HandleError::NoWin32Window => "win32: null HWND"@,
                HandleError::NoXlibWindow => "xlib: null window"@,
                HandleError::NoWaylandSurface => "wayland: null wl_surface"@,
                HandleError::NoWaylandDisplay => "wayland: null wl_display"@,
            },
    {
        match self {
            HandleError::NoWin32Window => "win32: null HWND",
            HandleError::NoXlibWindow => "xlib: null window",
            HandleError::NoWaylandSurface => "wayland: null wl_surface",
            HandleError::NoWaylandDisplay => "wayland: null wl_display",
        }
    }
}

/// The window that a description names. Every platform needs a window; Wayland needs its display
/// too, and looks at the surface first.
pub open spec fn handles_of(desc: WgrSurfaceDesc) -> Result<WindowHandles, HandleError> {
    match desc.platform {
        WgrPlatform::Win32 => if desc.window == 0 {
            Err(HandleError::NoWin32Window)
        } else {
            Ok(WindowHandles::Win32 { window: desc.window })
        },
        WgrPlatform::Xlib => if desc.window == 0 {
            Err(HandleError::NoXlibWindow)
        } else {
            Ok(
                WindowHandles::Xlib {
                    window: desc.window,
                    display: if desc.display == 0 {
                        None
                    } else {
                        Some(desc.display)
                    },
                },
            )
        },
        WgrPlatform::Wayland => if desc.window == 0 {
            Err(HandleError::NoWaylandSurface)
        } else if desc.display == 0 {
            Err(HandleError::NoWaylandDisplay)
        } else {
            Ok(WindowHandles::Wayland { surface: desc.window, display: desc.display })
        },
    }
}

/// The window that a description names, or why there is none.
pub fn build_handles(desc: &WgrSurfaceDesc) -> (r: Result<WindowHandles, HandleError>)
    ensures
        r == handles_of(*desc),
{
    match desc.platform {
        WgrPlatform::Win32 => {
            if desc.window == 0 {
                return Err(HandleError::NoWin32Window);
            }
            Ok(WindowHandles::Win32 { window: desc.window })
        },
        WgrPlatform::Xlib => {
            if desc.window == 0 {
                return Err(HandleError::NoXlibWindow);
            }
            let display: Option<usize> = if desc.display == 0 {
                None
            } else {
                Some(desc.display)
            };
            Ok(WindowHandles::Xlib { window: desc.window, display })
        },
        WgrPlatform::Wayland => {
            if desc.window == 0 {
                return Err(HandleError::NoWaylandSurface);
            }
            if desc.display == 0 {
                return Err(HandleError::NoWaylandDisplay);
            }
            Ok(WindowHandles::Wayland { surface: desc.window, display: desc.display })
        },
    }
}

/// A window is drawn in if there is one, and, on Wayland, if there is a display too. It is then the
/// window that was named, on the platform that was named, and the display that was named if there
/// was one and the platform asks for it.
pub proof fn windows_are_found(desc: WgrSurfaceDesc)
    ensures
        handles_of(desc) is Ok <==> desc.window != 0 && (desc.platform == WgrPlatform::Wayland
            ==> desc.display != 0),
        handles_of(desc) matches Ok(h) ==> match h {
            WindowHandles::Win32 { window } => desc.platform == WgrPlatform::Win32 && window
                == desc.window,
            WindowHandles::Xlib { window, display } => desc.platform == WgrPlatform::Xlib && window
                == desc.window && (desc.display == 0 <==> display is None) && (
            display matches Some(d) ==> d == desc.display),
            WindowHandles::Wayland { surface, display } => desc.platform == WgrPlatform::Wayland
                && surface == desc.window && display == desc.display,
        },
        handles_of(desc) matches Err(e) ==> match e {
            HandleError::NoWin32Window => desc.platform == WgrPlatform::Win32,
            HandleError::NoXlibWindow => desc.platform == WgrPlatform::Xlib,
            HandleError::NoWaylandSurface => desc.platform == WgrPlatform::Wayland && desc.window
                == 0,
            HandleError::NoWaylandDisplay => desc.platform == WgrPlatform::Wayland && desc.window
                != 0,
        },
{
}

} // verus!
