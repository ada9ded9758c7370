//! Which rendering backend the compositor runs on.

use vstd::prelude::*;

verus! {

/// The rendering backends the compositor can be started with.
#[derive(Debug, Clone, Copy, PartialEq, Eq)]
pub enum MoyaBackend {
    Winit,
    X11,
    Udev,
}

/// The compositor's command line.
#[derive(Debug, Clone, Copy, PartialEq, Eq)]
pub struct MoyaLauncher {
    /// Rendering backend to use.
    pub backend: MoyaBackend,
}

/// EDID metadata for displays.
#[derive(Debug, Clone, PartialEq, Eq)]
pub struct EdidInfo {
    pub model: String,
    pub manufacturer: String,
}

/// A renderer for the DRM backend.
pub trait DrmRenderer {
}

/// The backend that renders straight to the kernel's display devices.
#[derive(Debug, Clone, Copy, PartialEq, Eq)]
pub struct DrmBackend {
}

impl Default for DrmBackend {
    fn default() -> DrmBackend {
        DrmBackend {  }
    }
}

/// The backend to use where none is asked for: nested in a window where a
/// display server is there to host it, straight on the hardware otherwise.
pub fn default_backend(has_x_display: bool, has_wayland_display: bool) -> (backend: MoyaBackend)
    ensures
        backend == if has_x_display || has_wayland_display {
            MoyaBackend::Winit
        } else {
            MoyaBackend::Udev
        },
{
    if has_x_display || has_wayland_display {
        MoyaBackend::Winit
    } else {
        MoyaBackend::Udev
    }
}

} // verus!
