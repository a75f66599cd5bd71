//! Which window the keys go to: the keyboard never takes the focus, so it remembers the
//! window the user was typing into and brings it back to the front before sending keys.
use vstd::prelude::*;
use crate::text::{wstr_eq, zstr, utf16_of};

verus! {

/// The window class `cls` (a zero-terminated buffer) is `name`.
pub open spec fn class_is(cls: Seq<u16>, name: &str) -> bool {
    zstr(cls) == zstr(utf16_of(name@))
}

/// Windows of the desktop shell itself (the taskbar, the desktop) or of this keyboard.
pub open spec fn shell_class_spec(cls: Seq<u16>) -> bool {
    class_is(cls, "Shell_TrayWnd") || class_is(cls, "Progman") || class_is(cls, "WorkerW")
        || class_is(cls, "FloatKeys")
}

/// See `shell_class_spec`.
pub fn shell_class(cls: &[u16]) -> (r: bool)
    ensures
        r == shell_class_spec(cls@),
{
    wstr_eq(cls, "Shell_TrayWnd") || wstr_eq(cls, "Progman") || wstr_eq(cls, "WorkerW")
        || wstr_eq(cls, "FloatKeys")
}

/// Host windows of modern shell surfaces (Start, search, the touch keyboard), which belong
/// to the shell only when their process is one of the shell's.
pub open spec fn modern_class_spec(cls: Seq<u16>) -> bool {
    class_is(cls, "Windows.UI.Core.CoreWindow") || class_is(cls, "XamlExplorerHostIslandWindow")
        || class_is(cls, "DV2ControlHost")
}

/// See `modern_class_spec`.
pub fn modern_class(cls: &[u16]) -> (r: bool)
    ensures
        r == modern_class_spec(cls@),
{
    wstr_eq(cls, "Windows.UI.Core.CoreWindow") || wstr_eq(cls, "XamlExplorerHostIslandWindow")
        || wstr_eq(cls, "DV2ControlHost")
}

/// File Explorer windows.
pub open spec fn explorer_class_spec(cls: Seq<u16>) -> bool {
    class_is(cls, "CabinetWClass") || class_is(cls, "ExploreWClass")
}

/// See `explorer_class_spec`.
pub fn explorer_class(cls: &[u16]) -> (r: bool)
    ensures
        r == explorer_class_spec(cls@),
{
    wstr_eq(cls, "CabinetWClass") || wstr_eq(cls, "ExploreWClass")
}

/// Windows that cannot be pinned on top: the taskbars, the desktop and this keyboard.
pub open spec fn unpinnable_class_spec(cls: Seq<u16>) -> bool {
    class_is(cls, "Shell_TrayWnd") || class_is(cls, "Shell_SecondaryTrayWnd") || class_is(cls, "Progman")
        || class_is(cls, "WorkerW") || class_is(cls, "FloatKeys")
}

/// See `unpinnable_class_spec`.
pub fn unpinnable_class(cls: &[u16]) -> (r: bool)
    ensures
        r == unpinnable_class_spec(cls@),
{
    wstr_eq(cls, "Shell_TrayWnd") || wstr_eq(cls, "Shell_SecondaryTrayWnd") || wstr_eq(cls, "Progman")
        || wstr_eq(cls, "WorkerW") || wstr_eq(cls, "FloatKeys")
}

/// What to do about the focus before sending keys.
#[derive(Clone, Copy, Debug, PartialEq, Eq, Structural)]
pub enum FocusStep {
    /// Leave it.
    Keep,
    /// The window in front is the one typed into: remember it.
    Adopt,
    /// Bring the remembered window back to the front.
    Restore,
}

/// The window in front, as the host sees it.
#[derive(Clone, Copy)]
pub struct Front {
    /// It is this keyboard.
    pub is_self: bool,
    /// It is a visible window that the user types into (not the shell).
    pub usable: bool,
    /// It is the window that was in front when the keyboard started.
    pub is_startup: bool,
    /// The remembered window still exists.
    pub last_alive: bool,
    /// The remembered window is the one in front.
    pub last_is_front: bool,
}

/// The step before sending keys: with the keyboard in front, the remembered window comes
/// back; a usable window in front is adopted, unless it is still the start-up window while
/// another one is remembered; with none, the remembered window comes back if it exists.
pub open spec fn focus_step_spec(f: Front) -> FocusStep {
    if f.is_self {
        if f.last_alive { FocusStep::Restore } else { FocusStep::Keep }
    } else if f.usable {
        if f.is_startup && f.last_alive && !f.last_is_front { FocusStep::Restore } else { FocusStep::Adopt }
    } else if f.last_alive {
        FocusStep::Restore
    } else {
        FocusStep::Keep
    }
}

/// See `focus_step_spec`.
pub fn focus_step(f: Front) -> (r: FocusStep)
    ensures
        r == focus_step_spec(f),
{
    if f.is_self {
        if f.last_alive { FocusStep::Restore } else { FocusStep::Keep }
    } else if f.usable {
        if f.is_startup && f.last_alive && !f.last_is_front { FocusStep::Restore } else { FocusStep::Adopt }
    } else if f.last_alive {
        FocusStep::Restore
    } else {
        FocusStep::Keep
    }
}

/// A window that came to the front is remembered as the one typed into when it is a
/// visible, not minimised window other than the keyboard and the shell, and, while the
/// start-up window is still pending, not a File Explorer window.
pub open spec fn tracks_spec(other: bool, visible: bool, shell: bool, iconic: bool, startup_pending: bool, explorer: bool) -> bool {
    other && visible && !shell && !iconic && !(startup_pending && explorer)
}

/// See `tracks_spec`.
pub fn tracks(other: bool, visible: bool, shell: bool, iconic: bool, startup_pending: bool, explorer: bool) -> (r: bool)
    ensures
        r == tracks_spec(other, visible, shell, iconic, startup_pending, explorer),
{
    other && visible && !shell && !iconic && !(startup_pending && explorer)
}

} // verus!
