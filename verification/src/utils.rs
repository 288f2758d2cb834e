//! Small rules of the user interface.

use vstd::prelude::*;

verus! {

/// What the tray icon shows.
#[derive(Clone, Copy, Debug, PartialEq, Eq, Structural)]
pub enum TrayIconState {
    Idle,
    Recording,
}

/// The resource that holds the tray icon for `icon`, as a specification.
pub open spec fn tray_icon_path_of(icon: TrayIconState) -> Seq<char> {
    match icon {
        TrayIconState::Idle => "resources/tray_idle.png"@,
        TrayIconState::Recording => "resources/tray_recording.png"@,
    }
}

/// The resource that holds the tray icon for `icon`.
pub fn tray_icon_path(icon: TrayIconState) -> (path: &'static str)
    ensures
        path@ == tray_icon_path_of(icon),
{
    match icon {
        TrayIconState::Idle => "resources/tray_idle.png",
        TrayIconState::Recording => "resources/tray_recording.png",
    }
}

} // verus!
