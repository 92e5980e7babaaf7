//! The window-manager collaborator's vocabulary, as plain values: the
//! error shapes its calls can produce, the window types a window can be
//! hinted as, and the displayable text of each. The calls themselves —
//! keyboard grabs, docking, focus — are the surrounding application's
//! business; the state machine only decides when to make them.

use vstd::prelude::*;

verus! {

/// Why the display server refused a keyboard grab.
#[derive(Clone, Copy, Debug, PartialEq, Eq, Structural)]
pub enum GrabStatus {
    AlreadyGrabbed,
    InvalidTime,
    NotViewable,
    Frozen,
    Other,
}

/// A failure of a window-manager call.
#[derive(Debug)]
pub enum WmHintsError {
    /// The platform offers no X11 connection.
    UnsupportedError,
    /// The display-server connection reported this error text.
    XcbError(String),
    /// A keyboard grab came back with a refusal status.
    XcbGrabStatusError(GrabStatus),
}

/// The extended-window-manager-hints window type a window can be
/// declared as; a dock window uses [`WindowType::Dock`].
#[derive(Clone, Copy, Debug, PartialEq, Eq, Structural)]
pub enum WindowType {
    Dock,
    Toolbar,
    Menu,
    Utility,
    Splash,
    Dialog,
    DropdownMenu,
    PopupMenu,
    Tooltip,
    Notification,
    Combo,
    Dnd,
    Normal,
}

/// The displayable word of a grab refusal.
pub fn grab_status_text(g: GrabStatus) -> (r: &'static str)
    ensures
        g == GrabStatus::AlreadyGrabbed ==> r@ == "already grabbed"@,
        g == GrabStatus::InvalidTime ==> r@ == "invalid time"@,
        g == GrabStatus::NotViewable ==> r@ == "not viewable"@,
        g == GrabStatus::Frozen ==> r@ == "frozen"@,
        g == GrabStatus::Other ==> r@ == "unknown"@,
{
    match g {
        GrabStatus::AlreadyGrabbed => "already grabbed",
        GrabStatus::InvalidTime => "invalid time",
        GrabStatus::NotViewable => "not viewable",
        GrabStatus::Frozen => "frozen",
        GrabStatus::Other => "unknown",
    }
}

/// The displayable text of a window-manager failure: failures here are
/// logged and shown, never fatal.
pub fn report_wmhints_error(e: WmHintsError) -> (r: String)
    ensures
        ({
            match e {
                WmHintsError::UnsupportedError => r@ == "Platform does not support X11"@,
                WmHintsError::XcbError(m) => r@ == "XCB: "@ + m@,
                WmHintsError::XcbGrabStatusError(g) => r@ == "Couldn't Grab: "@ + (match g {
                    GrabStatus::AlreadyGrabbed => "already grabbed"@,
                    GrabStatus::InvalidTime => "invalid time"@,
                    GrabStatus::NotViewable => "not viewable"@,
                    GrabStatus::Frozen => "frozen"@,
                    GrabStatus::Other => "unknown"@,
                }),
            }
        }),
{
    match e {
        WmHintsError::UnsupportedError => String::from_str("Platform does not support X11"),
        WmHintsError::XcbError(m) => {
            let mut out = String::from_str("XCB: ");
            out.append(m.as_str());
            out
        },
        WmHintsError::XcbGrabStatusError(g) => {
            let mut out = String::from_str("Couldn't Grab: ");
            out.append(grab_status_text(g));
            out
        },
    }
}

/// The atom name that declares each window type to the window manager.
pub fn window_type_atom_name(t: WindowType) -> (r: &'static str)
    ensures
        t == WindowType::Dock ==> r@ == "_NET_WM_WINDOW_TYPE_DOCK"@,
        t == WindowType::Toolbar ==> r@ == "_NET_WM_WINDOW_TYPE_TOOLBAR"@,
        t == WindowType::Menu ==> r@ == "_NET_WM_WINDOW_TYPE_MENU"@,
        t == WindowType::Utility ==> r@ == "_NET_WM_WINDOW_TYPE_UTILITY"@,
        t == WindowType::Splash ==> r@ == "_NET_WM_WINDOW_TYPE_SPLASH"@,
        t == WindowType::Dialog ==> r@ == "_NET_WM_WINDOW_TYPE_DIALOG"@,
        t == WindowType::DropdownMenu ==> r@ == "_NET_WM_WINDOW_TYPE_DROPDOWN_MENU"@,
        t == WindowType::PopupMenu ==> r@ == "_NET_WM_WINDOW_TYPE_POPUP_MENU"@,
        t == WindowType::Tooltip ==> r@ == "_NET_WM_WINDOW_TYPE_TOOLTIP"@,
        t == WindowType::Notification ==> r@ == "_NET_WM_WINDOW_TYPE_NOTIFICATION"@,
        t == WindowType::Combo ==> r@ == "_NET_WM_WINDOW_TYPE_COMBO"@,
        t == WindowType::Dnd ==> r@ == "_NET_WM_WINDOW_TYPE_DND"@,
        t == WindowType::Normal ==> r@ == "_NET_WM_WINDOW_TYPE_NORMAL"@,
{
    match t {
        WindowType::Dock => "_NET_WM_WINDOW_TYPE_DOCK",
        WindowType::Toolbar => "_NET_WM_WINDOW_TYPE_TOOLBAR",
        WindowType::Menu => "_NET_WM_WINDOW_TYPE_MENU",
        WindowType::Utility => "_NET_WM_WINDOW_TYPE_UTILITY",
        WindowType::Splash => "_NET_WM_WINDOW_TYPE_SPLASH",
        WindowType::Dialog => "_NET_WM_WINDOW_TYPE_DIALOG",
        WindowType::DropdownMenu => "_NET_WM_WINDOW_TYPE_DROPDOWN_MENU",
        WindowType::PopupMenu => "_NET_WM_WINDOW_TYPE_POPUP_MENU",
        WindowType::Tooltip => "_NET_WM_WINDOW_TYPE_TOOLTIP",
        WindowType::Notification => "_NET_WM_WINDOW_TYPE_NOTIFICATION",
        WindowType::Combo => "_NET_WM_WINDOW_TYPE_COMBO",
        WindowType::Dnd => "_NET_WM_WINDOW_TYPE_DND",
        WindowType::Normal => "_NET_WM_WINDOW_TYPE_NORMAL",
    }
}

} // verus!
