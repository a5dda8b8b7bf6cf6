//! Windows, where every feature is supported; the desktop shell does the
//! Win32 work.
use vstd::prelude::*;

use crate::config::store::names_match_process;
use crate::selection::clipboard_reader::ClipboardFallbackContext;

use crate::platform::{
    ClipboardBackend, InputMonitor, PermissionChecker, PlatformBackend, PlatformFeatureStatus,
    PlatformId, SelectionAnchorReader, SelectionReader,
};

verus! {

/// Windows: UI Automation, the clipboard and global input hooks.
#[derive(Debug, Default, Clone, Copy)]
pub struct WindowsPlatformBackend;

impl SelectionReader for WindowsPlatformBackend {
    open spec fn spec_selection_reader_status(&self) -> PlatformFeatureStatus {
        PlatformFeatureStatus::Supported
    }

    fn selection_reader_status(&self) -> (r: PlatformFeatureStatus) {
        PlatformFeatureStatus::Supported
    }
}

impl SelectionAnchorReader for WindowsPlatformBackend {
    open spec fn spec_selection_anchor_reader_status(&self) -> PlatformFeatureStatus {
        PlatformFeatureStatus::Supported
    }

    fn selection_anchor_reader_status(&self) -> (r: PlatformFeatureStatus) {
        PlatformFeatureStatus::Supported
    }
}

impl ClipboardBackend for WindowsPlatformBackend {
    open spec fn spec_clipboard_fallback_status(&self) -> PlatformFeatureStatus {
        PlatformFeatureStatus::Supported
    }

    fn clipboard_fallback_status(&self) -> (r: PlatformFeatureStatus) {
        PlatformFeatureStatus::Supported
    }
}

impl PermissionChecker for WindowsPlatformBackend {
    open spec fn spec_permission_check_status(&self) -> PlatformFeatureStatus {
        PlatformFeatureStatus::Supported
    }

    open spec fn spec_permission_note(&self) -> Option<Seq<char>> {
        None
    }

    fn permission_check_status(&self) -> (r: PlatformFeatureStatus) {
        PlatformFeatureStatus::Supported
    }

    fn permission_note(&self) -> (r: Option<String>) {
        None
    }
}

impl InputMonitor for WindowsPlatformBackend {
    open spec fn spec_global_input_monitor_status(&self) -> PlatformFeatureStatus {
        PlatformFeatureStatus::Supported
    }

    fn global_input_monitor_status(&self) -> (r: PlatformFeatureStatus) {
        PlatformFeatureStatus::Supported
    }
}

impl PlatformBackend for WindowsPlatformBackend {
    open spec fn spec_platform_id(&self) -> PlatformId {
        PlatformId::Windows
    }

    open spec fn spec_automatic_selection_status(&self) -> PlatformFeatureStatus {
        PlatformFeatureStatus::Supported
    }

    open spec fn spec_manual_hotkey_status(&self) -> PlatformFeatureStatus {
        PlatformFeatureStatus::Supported
    }

    fn platform_id(&self) -> (r: PlatformId) {
        PlatformId::Windows
    }

    fn automatic_selection_status(&self) -> (r: PlatformFeatureStatus) {
        PlatformFeatureStatus::Supported
    }

    fn manual_hotkey_status(&self) -> (r: PlatformFeatureStatus) {
        PlatformFeatureStatus::Supported
    }
}

/// What reading the selection does next, once UI Automation has answered.
#[derive(Debug, Clone, Copy, PartialEq, Eq, Structural)]
pub enum SelectionReadStep {
    /// Use the selection UI Automation read.
    UseUiaSelection,
    /// UI Automation saw a password field: read nothing.
    StopPasswordField,
    /// The gesture may not use the clipboard: read nothing.
    StopWithoutClipboard,
    /// The clipboard is ruled out for this window: read nothing.
    StopClipboardDisabled,
    /// Copy the selection through the clipboard.
    CopyThroughClipboard,
}

/// The order of the selection read: a usable UI Automation selection whose
/// geometry fits the gesture (where a fit is required) wins; a password
/// field stops everything; then the clipboard, if the gesture allows it and
/// the window does.
pub fn selection_read_step(
    uia_candidate: bool,
    geometry_matches_gesture: bool,
    require_geometry_match: bool,
    uia_password_field: bool,
    allow_clipboard_fallback: bool,
    fallback_context: &ClipboardFallbackContext,
) -> (r: SelectionReadStep)
    ensures
        r == if uia_candidate && (!require_geometry_match || geometry_matches_gesture) {
            SelectionReadStep::UseUiaSelection
        } else if uia_password_field {
            SelectionReadStep::StopPasswordField
        } else if !allow_clipboard_fallback {
            SelectionReadStep::StopWithoutClipboard
        } else if !(fallback_context.clipboard_fallback_enabled && !fallback_context.is_password_control
            && !(fallback_context.disable_in_elevated_windows && fallback_context.is_elevated_window)
            && !names_match_process(fallback_context.disabled_apps@, fallback_context.process_name@)) {
            SelectionReadStep::StopClipboardDisabled
        } else {
            SelectionReadStep::CopyThroughClipboard
        },
{
    if uia_candidate && (!require_geometry_match || geometry_matches_gesture) {
        return SelectionReadStep::UseUiaSelection;
    }
    if uia_password_field {
        return SelectionReadStep::StopPasswordField;
    }
    if !allow_clipboard_fallback {
        return SelectionReadStep::StopWithoutClipboard;
    }
    if !crate::selection::clipboard_reader::should_use_clipboard_fallback(fallback_context) {
        return SelectionReadStep::StopClipboardDisabled;
    }
    SelectionReadStep::CopyThroughClipboard
}

/// What a mouse release does on Windows.
#[derive(Debug, Clone, Copy, PartialEq, Eq, Structural)]
pub enum MouseReleaseStep {
    /// A drag outside the assistant: capture the selection and show the bar.
    CaptureSelection,
    /// A click outside the assistant: clear the selection and hide the bar.
    ClearSelection,
    /// A release on the assistant's own windows: keep everything.
    KeepSelection,
}

/// A release on the assistant's windows keeps the selection; elsewhere a
/// drag captures it and a click clears it.
pub fn mouse_release_step(drag_distance_met: bool, in_assistant_window: bool) -> (r: MouseReleaseStep)
    ensures
        r == if in_assistant_window {
            MouseReleaseStep::KeepSelection
        } else if drag_distance_met {
            MouseReleaseStep::CaptureSelection
        } else {
            MouseReleaseStep::ClearSelection
        },
{
    if drag_distance_met && !in_assistant_window {
        MouseReleaseStep::CaptureSelection
    } else if !in_assistant_window {
        MouseReleaseStep::ClearSelection
    } else {
        MouseReleaseStep::KeepSelection
    }
}

} // verus!
