//! A selection as the assistant keeps it. `R` is a screen rectangle and `P`
//! a screen point, measured by the desktop shell.
use vstd::prelude::*;

use crate::selection::uia_reader::UiaSelectionResult;
use crate::text::trim;

verus! {

#[derive(Debug, Clone, PartialEq, Eq, Structural)]
pub enum SelectionReadMethod {
    UiAutomation,
    Clipboard,
    HotkeyClipboard,
}

#[derive(Debug, Clone, Copy, PartialEq, Eq, Structural)]
pub enum SelectionAnchorSource {
    UiAutomationRects,
    ClipboardNoGeometryDragFallback,
    HotkeyCursorFallback,
}

/// A selection read from an application.
#[derive(Debug, Clone, PartialEq)]
pub struct SelectionCandidate<R, P> {
    pub id: String,
    pub text: String,
    pub source_app: String,
    pub window_title: String,
    pub anchor_rect: Option<R>,
    pub fallback_point: P,
    pub read_method: SelectionReadMethod,
    pub selection_rects: Vec<R>,
    pub explicit_anchor: Option<P>,
    pub anchor_source: Option<SelectionAnchorSource>,
}

impl<R, P> SelectionCandidate<R, P> {
    /// A selection read through the clipboard: no geometry, a fresh id.
    pub fn from_clipboard_text(
        text: String,
        source_app: String,
        window_title: String,
        fallback_point: P,
    ) -> (c: Self)
        ensures
            crate::types::is_v4_uuid_text(c.id@),
            c.text == text,
            c.source_app == source_app,
            c.window_title == window_title,
            c.anchor_rect is None,
            c.fallback_point == fallback_point,
            c.read_method == SelectionReadMethod::Clipboard,
            c.selection_rects@.len() == 0,
            c.explicit_anchor is None,
            c.anchor_source == Some(SelectionAnchorSource::ClipboardNoGeometryDragFallback),
    {
        SelectionCandidate {
            id: crate::types::new_uuid(),
            text,
            source_app,
            window_title,
            anchor_rect: None,
            fallback_point,
            read_method: SelectionReadMethod::Clipboard,
            selection_rects: Vec::new(),
            explicit_anchor: None,
            anchor_source: Some(SelectionAnchorSource::ClipboardNoGeometryDragFallback),
        }
    }

    /// A selection read through UI Automation: refused for a password field
    /// or a blank text; the text is trimmed, the read's rectangles kept, and
    /// `explicit_anchor` is the anchor the shell computed from them.
    pub fn from_uia_result(
        result: UiaSelectionResult<R>,
        explicit_anchor: Option<P>,
        source_app: String,
        window_title: String,
        fallback_point: P,
    ) -> (c: Option<Self>)
        ensures
            c is Some <==> !result.is_password_control && (result.text matches Some(t) && trim(
                t@,
            ).len() > 0),
            c matches Some(s) ==> {
                &&& crate::types::is_v4_uuid_text(s.id@)
                &&& result.text matches Some(t) && s.text@ == trim(t@)
                &&& s.source_app == source_app
                &&& s.window_title == window_title
                &&& s.anchor_rect is None
                &&& s.fallback_point == fallback_point
                &&& s.read_method == SelectionReadMethod::UiAutomation
                &&& s.selection_rects == result.rects
                &&& s.explicit_anchor == explicit_anchor
                &&& s.anchor_source == Some(SelectionAnchorSource::UiAutomationRects)
            },
    {
        if result.is_password_control {
            return None;
        }
        let text = match &result.text {
            Some(t) => crate::text::trim_str(t.as_str()),
            None => return None,
        };
        if text.len() == 0 {
            return None;
        }
        Some(
            SelectionCandidate {
                id: crate::types::new_uuid(),
                text: crate::text::string_of(&text),
                source_app,
                window_title,
                anchor_rect: None,
                fallback_point,
                read_method: SelectionReadMethod::UiAutomation,
                selection_rects: result.rects,
                explicit_anchor,
                anchor_source: Some(SelectionAnchorSource::UiAutomationRects),
            },
        )
    }
}

} // verus!
