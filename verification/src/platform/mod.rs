//! What each desktop platform can do for the assistant, as the settings
//! window reports it.
use vstd::prelude::*;

use crate::ai::sse::opt_view;

pub mod pixels;
pub mod screenshot;
pub mod stub;
pub mod windows;

verus! {

#[derive(Debug, Clone, Copy, PartialEq, Eq, Structural)]
pub enum PlatformId {
    Windows,
    Macos,
    Linux,
    Unknown,
}

#[derive(Debug, Clone, Copy, PartialEq, Eq, Structural)]
pub enum PlatformFeatureStatus {
    Supported,
    Unsupported,
    PermissionRequired,
    Unavailable,
}

/// The features of a platform and their status.
#[derive(Debug, Clone, PartialEq, Eq)]
pub struct PlatformCapabilities {
    pub platform: PlatformId,
    pub automatic_selection: PlatformFeatureStatus,
    pub global_input_monitor: PlatformFeatureStatus,
    pub selection_reader: PlatformFeatureStatus,
    pub selection_anchor_reader: PlatformFeatureStatus,
    pub clipboard_fallback: PlatformFeatureStatus,
    pub manual_hotkey: PlatformFeatureStatus,
    pub permission_check: PlatformFeatureStatus,
    pub permission_note: Option<String>,
}

pub trait SelectionReader {
    spec fn spec_selection_reader_status(&self) -> PlatformFeatureStatus;

    fn selection_reader_status(&self) -> (r: PlatformFeatureStatus)
        ensures
            r == self.spec_selection_reader_status(),
    ;
}

pub trait SelectionAnchorReader {
    spec fn spec_selection_anchor_reader_status(&self) -> PlatformFeatureStatus;

    fn selection_anchor_reader_status(&self) -> (r: PlatformFeatureStatus)
        ensures
            r == self.spec_selection_anchor_reader_status(),
    ;
}

pub trait ClipboardBackend {
    spec fn spec_clipboard_fallback_status(&self) -> PlatformFeatureStatus;

    fn clipboard_fallback_status(&self) -> (r: PlatformFeatureStatus)
        ensures
            r == self.spec_clipboard_fallback_status(),
    ;
}

pub trait PermissionChecker {
    spec fn spec_permission_check_status(&self) -> PlatformFeatureStatus;

    spec fn spec_permission_note(&self) -> Option<Seq<char>>;

    fn permission_check_status(&self) -> (r: PlatformFeatureStatus)
        ensures
            r == self.spec_permission_check_status(),
    ;

    fn permission_note(&self) -> (r: Option<String>)
        ensures
            opt_view(r) == self.spec_permission_note(),
    ;
}

/// The status of the global input monitor; starting it and telling it of
/// the panel's closing is the desktop shell's part.
pub trait InputMonitor {
    spec fn spec_global_input_monitor_status(&self) -> PlatformFeatureStatus;

    fn global_input_monitor_status(&self) -> (r: PlatformFeatureStatus)
        ensures
            r == self.spec_global_input_monitor_status(),
    ;
}

pub trait PlatformBackend: InputMonitor + SelectionReader + SelectionAnchorReader + ClipboardBackend + PermissionChecker {
    spec fn spec_platform_id(&self) -> PlatformId;

    spec fn spec_automatic_selection_status(&self) -> PlatformFeatureStatus;

    spec fn spec_manual_hotkey_status(&self) -> PlatformFeatureStatus;

    fn platform_id(&self) -> (r: PlatformId)
        ensures
            r == self.spec_platform_id(),
    ;

    fn automatic_selection_status(&self) -> (r: PlatformFeatureStatus)
        ensures
            r == self.spec_automatic_selection_status(),
    ;

    fn manual_hotkey_status(&self) -> (r: PlatformFeatureStatus)
        ensures
            r == self.spec_manual_hotkey_status(),
    ;

    /// Every feature's status, as the backend declares it.
    fn capabilities(&self) -> (c: PlatformCapabilities)
        ensures
            c.platform == self.spec_platform_id(),
            c.automatic_selection == self.spec_automatic_selection_status(),
            c.global_input_monitor == self.spec_global_input_monitor_status(),
            c.selection_reader == self.spec_selection_reader_status(),
            c.selection_anchor_reader == self.spec_selection_anchor_reader_status(),
            c.clipboard_fallback == self.spec_clipboard_fallback_status(),
            c.manual_hotkey == self.spec_manual_hotkey_status(),
            c.permission_check == self.spec_permission_check_status(),
            opt_view(c.permission_note) == self.spec_permission_note(),
    {
        PlatformCapabilities {
            platform: self.platform_id(),
            automatic_selection: self.automatic_selection_status(),
            global_input_monitor: self.global_input_monitor_status(),
            selection_reader: self.selection_reader_status(),
            selection_anchor_reader: self.selection_anchor_reader_status(),
            clipboard_fallback: self.clipboard_fallback_status(),
            manual_hotkey: self.manual_hotkey_status(),
            permission_check: self.permission_check_status(),
            permission_note: self.permission_note(),
        }
    }
}

} // verus!
