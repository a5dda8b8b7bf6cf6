//! What opening the panel on a selection decides: which action to offer,
//! and which replacements to refuse.
use vstd::prelude::*;

use crate::ai::action_classifier::{spec_classify_action, AiAction};
use crate::selection::types::{SelectionAnchorSource, SelectionCandidate, SelectionReadMethod};
use crate::text::trim;
use crate::types::PublicError;

verus! {

/// What the panel is opened with.
#[derive(Debug, Clone, PartialEq)]
pub struct PanelContext<R, P> {
    pub selection: SelectionCandidate<R, P>,
    pub action: AiAction,
    pub auto_run: bool,
}

/// Two candidates that are the same selection.
pub open spec fn same_candidate<R, P>(a: SelectionCandidate<R, P>, b: SelectionCandidate<R, P>) -> bool {
    &&& a.id@ == b.id@
    &&& a.text@ == b.text@
    &&& a.source_app@ == b.source_app@
    &&& a.window_title@ == b.window_title@
    &&& a.anchor_rect == b.anchor_rect
    &&& a.fallback_point == b.fallback_point
    &&& a.read_method == b.read_method
    &&& a.selection_rects@ == b.selection_rects@
    &&& a.explicit_anchor == b.explicit_anchor
    &&& a.anchor_source == b.anchor_source
}

fn copy_rects<R: Copy>(v: &Vec<R>) -> (r: Vec<R>)
    ensures
        r@ == v@,
{
    let mut out: Vec<R> = Vec::new();
    let mut i: usize = 0;
    while i < v.len()
        invariant
            i <= v@.len(),
            out@ == v@.subrange(0, i as int),
        decreases v.len() - i,
    {
        out.push(v[i]);
        i = i + 1;
        assert(out@ =~= v@.subrange(0, i as int));
    }
    assert(v@.subrange(0, v@.len() as int) =~= v@);
    out
}

/// A copy of a candidate.
pub fn copy_candidate<R: Copy, P: Copy>(c: &SelectionCandidate<R, P>) -> (r: SelectionCandidate<
    R,
    P,
>)
    ensures
        same_candidate(r, *c),
{
    let read_method = match c.read_method {
        SelectionReadMethod::UiAutomation => SelectionReadMethod::UiAutomation,
        SelectionReadMethod::Clipboard => SelectionReadMethod::Clipboard,
        SelectionReadMethod::HotkeyClipboard => SelectionReadMethod::HotkeyClipboard,
    };
    SelectionCandidate {
        id: crate::text::owned(c.id.as_str()),
        text: crate::text::owned(c.text.as_str()),
        source_app: crate::text::owned(c.source_app.as_str()),
        window_title: crate::text::owned(c.window_title.as_str()),
        anchor_rect: c.anchor_rect,
        fallback_point: c.fallback_point,
        read_method,
        selection_rects: copy_rects(&c.selection_rects),
        explicit_anchor: c.explicit_anchor,
        anchor_source: c.anchor_source,
    }
}

/// The panel context of a selection: its text trimmed, which must keep at
/// least two characters, and the action its text suggests.
pub fn create_panel_context_for_selection<R, P>(
    selection: SelectionCandidate<R, P>,
    auto_run: bool,
) -> (r: Result<PanelContext<R, P>, PublicError>)
    ensures
        r is Err <==> trim(selection.text@).len() < 2,
        r matches Err(e) ==> e.code@ == "selection_text_too_short"@,
        r matches Ok(c) ==> {
            &&& c.selection.text@ == trim(selection.text@)
            &&& c.action == spec_classify_action(trim(selection.text@))
            &&& c.auto_run == auto_run
            &&& c.selection.id == selection.id
            &&& c.selection.source_app == selection.source_app
            &&& c.selection.window_title == selection.window_title
            &&& c.selection.anchor_rect == selection.anchor_rect
            &&& c.selection.fallback_point == selection.fallback_point
            &&& c.selection.read_method == selection.read_method
            &&& c.selection.selection_rects == selection.selection_rects
            &&& c.selection.explicit_anchor == selection.explicit_anchor
            &&& c.selection.anchor_source == selection.anchor_source
        },
{
    let trimmed = crate::text::trim_str(selection.text.as_str());
    if trimmed.len() < 2 {
        return Err(crate::types::public_error("selection_text_too_short", "Selected text is too short."));
    }
    let text = crate::text::string_of(&trimmed);
    let action = crate::ai::action_classifier::classify_action(text.as_str());
    let mut selection = selection;
    selection.text = text;
    Ok(PanelContext { selection, action, auto_run })
}

/// The panel context of text typed or captured by the manual hotkey: a
/// fresh id, marked as read through the hotkey, never run automatically.
pub fn create_panel_context_for_text<R, P>(text: &str, fallback_point: P) -> (r: Result<
    PanelContext<R, P>,
    PublicError,
>)
    ensures
        r is Err <==> trim(text@).len() < 2,
        r matches Err(e) ==> e.code@ == "selection_text_too_short"@,
        r matches Ok(c) ==> {
            &&& c.selection.text@ == trim(text@)
            &&& c.action == spec_classify_action(trim(text@))
            &&& !c.auto_run
            &&& crate::types::is_v4_uuid_text(c.selection.id@)
            &&& c.selection.source_app@ == "manual"@
            &&& c.selection.window_title@ == "Manual hotkey"@
            &&& c.selection.anchor_rect is None
            &&& c.selection.fallback_point == fallback_point
            &&& c.selection.read_method == SelectionReadMethod::HotkeyClipboard
            &&& c.selection.selection_rects@.len() == 0
            &&& c.selection.explicit_anchor is None
            &&& c.selection.anchor_source == Some(SelectionAnchorSource::HotkeyCursorFallback)
        },
{
    let trimmed = crate::text::trim_str(text);
    if trimmed.len() < 2 {
        return Err(crate::types::public_error("selection_text_too_short", "Selected text is too short."));
    }
    let selection = SelectionCandidate {
        id: crate::types::new_uuid(),
        text: crate::text::string_of(&trimmed),
        source_app: crate::text::owned("manual"),
        window_title: crate::text::owned("Manual hotkey"),
        anchor_rect: None,
        fallback_point,
        read_method: SelectionReadMethod::HotkeyClipboard,
        selection_rects: Vec::new(),
        explicit_anchor: None,
        anchor_source: Some(SelectionAnchorSource::HotkeyCursorFallback),
    };
    proof {
        assert(trim(trim(text@)) == trim(text@)) by {
            crate::text::lemma_trim_idempotent(text@);
        }
    }
    create_panel_context_for_selection(selection, false)
}

/// The context shown again on a panel already open: the same, but not run
/// again.
pub fn panel_context_for_visible_refresh<R: Copy, P: Copy>(context: &PanelContext<R, P>) -> (r:
    PanelContext<R, P>)
    ensures
        same_candidate(r.selection, context.selection),
        r.action == context.action,
        !r.auto_run,
{
    PanelContext { selection: copy_candidate(&context.selection), action: context.action, auto_run: false }
}

/// A replacement text must not be blank; it is used as given.
pub fn validate_replacement_text(text: &str) -> (r: Result<&str, PublicError>)
    ensures
        r is Err <==> trim(text@).len() == 0,
        r matches Ok(t) ==> t@ == text@,
        r matches Err(e) ==> e.code@ == "replacement_text_required"@,
{
    if crate::text::trim_str(text).len() == 0 {
        Err(crate::types::public_error("replacement_text_required", "替换文本不能为空。"))
    } else {
        Ok(text)
    }
}

/// A replacement aimed at a selection must aim at the latest one; without
/// a (non-blank) selection id nothing is checked.
pub fn validate_replacement_selection<R, P>(
    latest: Option<&PanelContext<R, P>>,
    selection_id: Option<&str>,
) -> (r: Result<(), PublicError>)
    ensures
        match selection_id {
            None => r is Ok,
            Some(id) => if trim(id@).len() == 0 {
                r is Ok
            } else {
                match latest {
                    None => r matches Err(e) && e.code@ == "selection_context_missing"@,
                    Some(c) => if c.selection.id@ == id@ {
                        r is Ok
                    } else {
                        r matches Err(e) && e.code@ == "selection_context_changed"@
                    },
                }
            },
        },
{
    let id = match selection_id {
        Some(id) => id,
        None => return Ok(()),
    };
    if crate::text::trim_str(id).len() == 0 {
        return Ok(());
    }
    let context = match latest {
        Some(c) => c,
        None => return Err(crate::types::public_error("selection_context_missing", "没有可替换的选区上下文。")),
    };
    let current = crate::text::chars_of(context.selection.id.as_str());
    let wanted = crate::text::chars_of(id);
    if crate::text::chars_eq(&current, &wanted) {
        Ok(())
    } else {
        Err(crate::types::public_error("selection_context_changed", "选区已经变化，请重新选择后再替换。"))
    }
}

} // verus!
