//! The platforms the assistant does not read selections on yet.
use vstd::prelude::*;

use crate::platform::{
    ClipboardBackend, InputMonitor, PermissionChecker, PlatformBackend, PlatformFeatureStatus,
    PlatformId, SelectionAnchorReader, SelectionReader,
};

verus! {

/// macOS: reserved; needs the Accessibility and Input Monitoring permissions.
#[derive(Debug, Default, Clone, Copy)]
pub struct MacosPlatformBackend;

impl SelectionReader for MacosPlatformBackend {
    open spec fn spec_selection_reader_status(&self) -> PlatformFeatureStatus {
        PlatformFeatureStatus::Unavailable
    }

    fn selection_reader_status(&self) -> (r: PlatformFeatureStatus) {
        PlatformFeatureStatus::Unavailable
    }
}

impl SelectionAnchorReader for MacosPlatformBackend {
    open spec fn spec_selection_anchor_reader_status(&self) -> PlatformFeatureStatus {
        PlatformFeatureStatus::Unavailable
    }

    fn selection_anchor_reader_status(&self) -> (r: PlatformFeatureStatus) {
        PlatformFeatureStatus::Unavailable
    }
}

impl ClipboardBackend for MacosPlatformBackend {
    open spec fn spec_clipboard_fallback_status(&self) -> PlatformFeatureStatus {
        PlatformFeatureStatus::Unavailable
    }

    fn clipboard_fallback_status(&self) -> (r: PlatformFeatureStatus) {
        PlatformFeatureStatus::Unavailable
    }
}

impl PermissionChecker for MacosPlatformBackend {
    open spec fn spec_permission_check_status(&self) -> PlatformFeatureStatus {
        PlatformFeatureStatus::PermissionRequired
    }

    open spec fn spec_permission_note(&self) -> Option<Seq<char>> {
        Some("macOS backend 已预留；自动划词需要实现 Accessibility/Input Monitoring 权限检查与原生 selection reader。"@)
    }

    fn permission_check_status(&self) -> (r: PlatformFeatureStatus) {
        PlatformFeatureStatus::PermissionRequired
    }

    fn permission_note(&self) -> (r: Option<String>) {
        Some(crate::text::owned("macOS backend 已预留；自动划词需要实现 Accessibility/Input Monitoring 权限检查与原生 selection reader。"))
    }
}

impl InputMonitor for MacosPlatformBackend {
    open spec fn spec_global_input_monitor_status(&self) -> PlatformFeatureStatus {
        PlatformFeatureStatus::PermissionRequired
    }

    fn global_input_monitor_status(&self) -> (r: PlatformFeatureStatus) {
        PlatformFeatureStatus::PermissionRequired
    }
}

impl PlatformBackend for MacosPlatformBackend {
    open spec fn spec_platform_id(&self) -> PlatformId {
        PlatformId::Macos
    }

    open spec fn spec_automatic_selection_status(&self) -> PlatformFeatureStatus {
        PlatformFeatureStatus::PermissionRequired
    }

    open spec fn spec_manual_hotkey_status(&self) -> PlatformFeatureStatus {
        PlatformFeatureStatus::Unavailable
    }

    fn platform_id(&self) -> (r: PlatformId) {
        PlatformId::Macos
    }

    fn automatic_selection_status(&self) -> (r: PlatformFeatureStatus) {
        PlatformFeatureStatus::PermissionRequired
    }

    fn manual_hotkey_status(&self) -> (r: PlatformFeatureStatus) {
        PlatformFeatureStatus::Unavailable
    }
}

/// Linux: reserved; X11 and Wayland each need their own input monitor and reader.
#[derive(Debug, Default, Clone, Copy)]
pub struct LinuxPlatformBackend;

impl SelectionReader for LinuxPlatformBackend {
    open spec fn spec_selection_reader_status(&self) -> PlatformFeatureStatus {
        PlatformFeatureStatus::Unavailable
    }

    fn selection_reader_status(&self) -> (r: PlatformFeatureStatus) {
        PlatformFeatureStatus::Unavailable
    }
}

impl SelectionAnchorReader for LinuxPlatformBackend {
    open spec fn spec_selection_anchor_reader_status(&self) -> PlatformFeatureStatus {
        PlatformFeatureStatus::Unavailable
    }

    fn selection_anchor_reader_status(&self) -> (r: PlatformFeatureStatus) {
        PlatformFeatureStatus::Unavailable
    }
}

impl ClipboardBackend for LinuxPlatformBackend {
    open spec fn spec_clipboard_fallback_status(&self) -> PlatformFeatureStatus {
        PlatformFeatureStatus::Unavailable
    }

    fn clipboard_fallback_status(&self) -> (r: PlatformFeatureStatus) {
        PlatformFeatureStatus::Unavailable
    }
}

impl PermissionChecker for LinuxPlatformBackend {
    open spec fn spec_permission_check_status(&self) -> PlatformFeatureStatus {
        PlatformFeatureStatus::Unavailable
    }

    open spec fn spec_permission_note(&self) -> Option<Seq<char>> {
        Some("Linux backend 已预留；X11/Wayland 的全局输入监听与其他窗口选区读取需要分别实现，Wayland 默认限制更强。"@)
    }

    fn permission_check_status(&self) -> (r: PlatformFeatureStatus) {
        PlatformFeatureStatus::Unavailable
    }

    fn permission_note(&self) -> (r: Option<String>) {
        Some(crate::text::owned("Linux backend 已预留；X11/Wayland 的全局输入监听与其他窗口选区读取需要分别实现，Wayland 默认限制更强。"))
    }
}

impl InputMonitor for LinuxPlatformBackend {
    open spec fn spec_global_input_monitor_status(&self) -> PlatformFeatureStatus {
        PlatformFeatureStatus::Unsupported
    }

    fn global_input_monitor_status(&self) -> (r: PlatformFeatureStatus) {
        PlatformFeatureStatus::Unsupported
    }
}

impl PlatformBackend for LinuxPlatformBackend {
    open spec fn spec_platform_id(&self) -> PlatformId {
        PlatformId::Linux
    }

    open spec fn spec_automatic_selection_status(&self) -> PlatformFeatureStatus {
        PlatformFeatureStatus::Unavailable
    }

    open spec fn spec_manual_hotkey_status(&self) -> PlatformFeatureStatus {
        PlatformFeatureStatus::Unavailable
    }

    fn platform_id(&self) -> (r: PlatformId) {
        PlatformId::Linux
    }

    fn automatic_selection_status(&self) -> (r: PlatformFeatureStatus) {
        PlatformFeatureStatus::Unavailable
    }

    fn manual_hotkey_status(&self) -> (r: PlatformFeatureStatus) {
        PlatformFeatureStatus::Unavailable
    }
}

/// Any other platform.
#[derive(Debug, Default, Clone, Copy)]
pub struct UnsupportedPlatformBackend;

impl SelectionReader for UnsupportedPlatformBackend {
    open spec fn spec_selection_reader_status(&self) -> PlatformFeatureStatus {
        PlatformFeatureStatus::Unsupported
    }

    fn selection_reader_status(&self) -> (r: PlatformFeatureStatus) {
        PlatformFeatureStatus::Unsupported
    }
}

impl SelectionAnchorReader for UnsupportedPlatformBackend {
    open spec fn spec_selection_anchor_reader_status(&self) -> PlatformFeatureStatus {
        PlatformFeatureStatus::Unsupported
    }

    fn selection_anchor_reader_status(&self) -> (r: PlatformFeatureStatus) {
        PlatformFeatureStatus::Unsupported
    }
}

impl ClipboardBackend for UnsupportedPlatformBackend {
    open spec fn spec_clipboard_fallback_status(&self) -> PlatformFeatureStatus {
        PlatformFeatureStatus::Unsupported
    }

    fn clipboard_fallback_status(&self) -> (r: PlatformFeatureStatus) {
        PlatformFeatureStatus::Unsupported
    }
}

impl PermissionChecker for UnsupportedPlatformBackend {
    open spec fn spec_permission_check_status(&self) -> PlatformFeatureStatus {
        PlatformFeatureStatus::Unsupported
    }

    open spec fn spec_permission_note(&self) -> Option<Seq<char>> {
        Some("当前平台尚未预留系统层 backend。"@)
    }

    fn permission_check_status(&self) -> (r: PlatformFeatureStatus) {
        PlatformFeatureStatus::Unsupported
    }

    fn permission_note(&self) -> (r: Option<String>) {
        Some(crate::text::owned("当前平台尚未预留系统层 backend。"))
    }
}

impl InputMonitor for UnsupportedPlatformBackend {
    open spec fn spec_global_input_monitor_status(&self) -> PlatformFeatureStatus {
        PlatformFeatureStatus::Unsupported
    }

    fn global_input_monitor_status(&self) -> (r: PlatformFeatureStatus) {
        PlatformFeatureStatus::Unsupported
    }
}

impl PlatformBackend for UnsupportedPlatformBackend {
    open spec fn spec_platform_id(&self) -> PlatformId {
        PlatformId::Unknown
    }

    open spec fn spec_automatic_selection_status(&self) -> PlatformFeatureStatus {
        PlatformFeatureStatus::Unsupported
    }

    open spec fn spec_manual_hotkey_status(&self) -> PlatformFeatureStatus {
        PlatformFeatureStatus::Unsupported
    }

    fn platform_id(&self) -> (r: PlatformId) {
        PlatformId::Unknown
    }

    fn automatic_selection_status(&self) -> (r: PlatformFeatureStatus) {
        PlatformFeatureStatus::Unsupported
    }

    fn manual_hotkey_status(&self) -> (r: PlatformFeatureStatus) {
        PlatformFeatureStatus::Unsupported
    }
}

} // verus!
