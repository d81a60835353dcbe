//! Whether the machine has a desktop to open a browser on.

use vstd::prelude::*;

verus! {

/// Milliseconds between the start of the server and the opening of the browser.
pub const BROWSER_DELAY_MILLIS: u64 = 500;

/// What decides whether there is a desktop.
#[derive(Clone, Copy, Debug)]
pub struct Platform {
    /// The program was built for a phone.
    pub mobile: bool,
    /// `DISPLAY` is set.
    pub display: bool,
    /// `WAYLAND_DISPLAY` is set.
    pub wayland_display: bool,
    /// The program was built for Windows.
    pub windows: bool,
    /// The program was built for macOS.
    pub macos: bool,
}

/// Whether there is a desktop: never on a phone; elsewhere where a display
/// is named or the system always has one.
pub fn is_desktop_environment(platform: &Platform) -> (r: bool)
    ensures
        r == (!platform.mobile && (platform.display || platform.wayland_display
            || platform.windows || platform.macos)),
{
    if platform.mobile {
        return false;
    }
    platform.display || platform.wayland_display || platform.windows || platform.macos
}

} // verus!
