//! Startup settings for the window and the graphics backend.

use vstd::prelude::*;

verus! {

/// The graphics backend the device is created on.
#[derive(Clone, Copy, Debug, PartialEq, Eq, Structural)]
pub enum SBackend {
    VULKAN,
    METAL,
    DX12,
    DX11,
    OGL,
    ALL,
}

/// Window and backend configuration, consumed once at startup.
#[derive(Clone, Copy, Debug)]
pub struct Settings {
    pub always_on_top: bool,
    pub title: &'static str,
    pub resizable: bool,
    pub backend: SBackend,
    pub width: u32,
    pub height: u32,
}

impl Default for Settings {
    /// A resizable 600 by 600 window on any available backend.
    fn default() -> (s: Settings)
        ensures
            s.always_on_top == false,
            s.title@ == "Stray App"@,
            s.resizable == true,
            s.backend == SBackend::ALL,
            s.width == 600,
            s.height == 600,
    {
        Settings {
            always_on_top: false,
            title: "Stray App",
            resizable: true,
            backend: SBackend::ALL,
            width: 600,
            height: 600,
        }
    }
}

} // verus!
