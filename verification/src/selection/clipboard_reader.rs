//! When the clipboard may be borrowed to read a selection, and how it is
//! given back.
use vstd::prelude::*;

use crate::config::store::names_match_process;
use crate::selection::uia_reader::UiaSelectionResult;

verus! {

/// What decides whether the clipboard may be used.
#[derive(Debug, Clone)]
pub struct ClipboardFallbackContext {
    pub clipboard_fallback_enabled: bool,
    pub process_name: String,
    pub disabled_apps: Vec<String>,
    pub is_password_control: bool,
    pub is_elevated_window: bool,
    pub disable_in_elevated_windows: bool,
}

/// The clipboard is used only where the fallback is enabled, the field is
/// not a password field, an elevated window is not excluded, and the
/// application is not disabled (its name compared ignoring ASCII case).
pub fn should_use_clipboard_fallback(context: &ClipboardFallbackContext) -> (r: bool)
    ensures
        r == (context.clipboard_fallback_enabled && !context.is_password_control && !(
        context.disable_in_elevated_windows && context.is_elevated_window) && !names_match_process(
            context.disabled_apps@,
            context.process_name@,
        )),
{
    if !context.clipboard_fallback_enabled {
        return false;
    }
    if context.is_password_control {
        return false;
    }
    if context.disable_in_elevated_windows && context.is_elevated_window {
        return false;
    }
    !crate::config::store::any_name_matches_process(
        &context.disabled_apps,
        context.process_name.as_str(),
    )
}

/// A UI Automation read of a password field rules the clipboard out.
pub fn should_block_clipboard_fallback_after_uia_result<R: Copy>(result: Option<
    &UiaSelectionResult<R>,
>) -> (r: bool)
    ensures
        r == (result matches Some(x) && x.is_password_control),
{
    match result {
        Some(x) => x.is_password_control,
        None => false,
    }
}

/// The clipboard may be captured conservatively where it is empty or holds
/// Unicode text.
pub fn should_prepare_conservative_clipboard_capture(
    format_count: u32,
    unicode_text_available: bool,
) -> (r: bool)
    ensures
        r == (format_count == 0 || unicode_text_available),
{
    format_count == 0 || unicode_text_available
}

/// One clipboard format and its bytes.
#[derive(Debug, Clone, PartialEq, Eq)]
pub struct ClipboardFormatSnapshot {
    pub format: u32,
    pub data: Vec<u8>,
}

/// What is put back on the clipboard.
#[derive(Debug, Clone, PartialEq, Eq)]
pub enum ClipboardRestorePlan {
    Text(String),
    Formats(Vec<ClipboardFormatSnapshot>),
    Empty,
}

pub open spec fn snapshot_views(s: Seq<ClipboardFormatSnapshot>) -> Seq<(u32, Seq<u8>)> {
    s.map_values(|x: ClipboardFormatSnapshot| (x.format, x.data@))
}

/// Two plans that put back the same thing.
pub open spec fn same_plan(a: ClipboardRestorePlan, b: ClipboardRestorePlan) -> bool {
    match (a, b) {
        (ClipboardRestorePlan::Text(x), ClipboardRestorePlan::Text(y)) => x@ == y@,
        (ClipboardRestorePlan::Formats(x), ClipboardRestorePlan::Formats(y)) => snapshot_views(x@)
            == snapshot_views(y@),
        (ClipboardRestorePlan::Empty, ClipboardRestorePlan::Empty) => true,
        _ => false,
    }
}

fn copy_bytes(b: &Vec<u8>) -> (r: Vec<u8>)
    ensures
        r@ == b@,
{
    let mut out: Vec<u8> = Vec::new();
    let mut i: usize = 0;
    while i < b.len()
        invariant
            i <= b@.len(),
            out@ == b@.subrange(0, i as int),
        decreases b.len() - i,
    {
        out.push(b[i]);
        i = i + 1;
        assert(out@ =~= b@.subrange(0, i as int));
    }
    assert(b@.subrange(0, b@.len() as int) =~= b@);
    out
}

fn copy_plan(plan: &ClipboardRestorePlan) -> (r: ClipboardRestorePlan)
    ensures
        same_plan(r, *plan),
{
    match plan {
        ClipboardRestorePlan::Text(t) => ClipboardRestorePlan::Text(crate::text::owned(t.as_str())),
        ClipboardRestorePlan::Formats(formats) => {
            let mut out: Vec<ClipboardFormatSnapshot> = Vec::new();
            let mut i: usize = 0;
            while i < formats.len()
                invariant
                    i <= formats@.len(),
                    out@.len() == i,
                    snapshot_views(out@) == snapshot_views(formats@.subrange(0, i as int)),
                decreases formats.len() - i,
            {
                let ghost before = out@;
                out.push(
                    ClipboardFormatSnapshot {
                        format: formats[i].format,
                        data: copy_bytes(&formats[i].data),
                    },
                );
                i = i + 1;
                assert forall|k: int| 0 <= k < i implies snapshot_views(out@)[k] == snapshot_views(
                    formats@.subrange(0, i as int),
                )[k] by {
                    if k < i - 1 {
                        assert(out@[k] == before[k]);
                        assert(snapshot_views(before)[k] == snapshot_views(
                            formats@.subrange(0, i - 1),
                        )[k]);
                    }
                }
                assert(snapshot_views(out@) =~= snapshot_views(formats@.subrange(0, i as int)));
            }
            assert(formats@.subrange(0, formats@.len() as int) =~= formats@);
            ClipboardRestorePlan::Formats(out)
        },
        ClipboardRestorePlan::Empty => ClipboardRestorePlan::Empty,
    }
}

/// The attempts to give the clipboard back: the plan once and then
/// `retry_count` more times, and finally an empty clipboard.
pub fn clipboard_restore_attempt_sequence(plan: ClipboardRestorePlan, retry_count: usize) -> (r:
    Vec<ClipboardRestorePlan>)
    requires
        retry_count < usize::MAX - 1,
    ensures
        r@.len() == retry_count + 2,
        forall|i: int| 0 <= i <= retry_count ==> same_plan(#[trigger] r@[i], plan),
        r@[retry_count + 1] == ClipboardRestorePlan::Empty,
{
    let mut attempts: Vec<ClipboardRestorePlan> = Vec::new();
    let mut i: usize = 0;
    while i <= retry_count
        invariant
            i <= retry_count + 1,
            retry_count < usize::MAX - 1,
            attempts@.len() == i,
            forall|k: int| 0 <= k < i ==> same_plan(#[trigger] attempts@[k], plan),
        decreases retry_count + 1 - i,
    {
        attempts.push(copy_plan(&plan));
        i = i + 1;
    }
    attempts.push(ClipboardRestorePlan::Empty);
    attempts
}

/// The selected text counts only where the clipboard was given back, and
/// only with at least two characters.
pub fn should_accept_selected_text_after_restore(
    selected_text: Option<&str>,
    restored_clipboard: bool,
) -> (r: Option<String>)
    ensures
        r is Some <==> restored_clipboard && (selected_text matches Some(t) && t@.len() >= 2),
        r matches Some(s) ==> (selected_text matches Some(t) && s@ == t@),
{
    if !restored_clipboard {
        return None;
    }
    match selected_text {
        Some(t) => {
            let chars = crate::text::chars_of(t);
            if chars.len() >= 2 {
                Some(crate::text::owned(t))
            } else {
                None
            }
        },
        None => None,
    }
}

/// What reading through the clipboard gave.
#[derive(Debug, Clone, PartialEq, Eq)]
pub struct ClipboardReadOutcome {
    pub text: Option<String>,
    pub restored_original_clipboard: bool,
    pub skipped_reason: Option<String>,
}

/// No text, nothing restored, and the reason the clipboard was not used.
pub fn empty_clipboard_outcome(reason: &str) -> (r: ClipboardReadOutcome)
    ensures
        r.text is None,
        !r.restored_original_clipboard,
        r.skipped_reason matches Some(s) && s@ == reason@,
{
    ClipboardReadOutcome {
        text: None,
        restored_original_clipboard: false,
        skipped_reason: Some(crate::text::owned(reason)),
    }
}

/// What giving the clipboard back does after one attempt.
#[derive(Debug, Clone, Copy, PartialEq, Eq, Structural)]
pub enum RestoreStep {
    /// Stop; the original was given back or not.
    Finished(bool),
    /// Wait a moment and try the next attempt.
    RetryAfterDelay,
}

/// After attempt `index` of `attempt_count` (see
/// `clipboard_restore_attempt_sequence`): a success of any attempt but the
/// last, the emptying one, gives the original back; a failure before the
/// last attempt is retried after a delay; a failure of the last ends it.
pub fn restore_step(index: usize, attempt_count: usize, succeeded: bool) -> (r: RestoreStep)
    requires
        index < attempt_count,
    ensures
        succeeded ==> r == RestoreStep::Finished(index != attempt_count - 1),
        !succeeded && index + 1 < attempt_count ==> r == RestoreStep::RetryAfterDelay,
        !succeeded && index + 1 == attempt_count ==> r == RestoreStep::Finished(false),
{
    let last_index = attempt_count - 1;
    if succeeded {
        return RestoreStep::Finished(index != last_index);
    }
    if index < last_index {
        RestoreStep::RetryAfterDelay
    } else {
        RestoreStep::Finished(false)
    }
}

/// How the clipboard is kept before a copy.
#[derive(Debug, Clone, Copy, PartialEq, Eq, Structural)]
pub enum RestorePlanStep {
    /// It cannot be given back: copy without a plan.
    NoPlan,
    /// It is empty: empty it again afterwards.
    Empty,
    /// Snapshot each of this many formats.
    Snapshot(u32),
}

/// A clipboard that reports a negative format count, or holds formats
/// other than text, is not kept; an empty one is emptied again; otherwise
/// its formats are snapshot.
pub fn restore_plan_step(format_count: i32, unicode_text_available: bool) -> (r: RestorePlanStep)
    ensures
        format_count < 0 ==> r == RestorePlanStep::NoPlan,
        format_count == 0 ==> r == RestorePlanStep::Empty,
        format_count > 0 && !unicode_text_available ==> r == RestorePlanStep::NoPlan,
        format_count > 0 && unicode_text_available ==> r == RestorePlanStep::Snapshot(format_count as u32),
{
    if format_count < 0 {
        return RestorePlanStep::NoPlan;
    }
    if !should_prepare_conservative_clipboard_capture(format_count as u32, unicode_text_available) {
        return RestorePlanStep::NoPlan;
    }
    if format_count == 0 {
        RestorePlanStep::Empty
    } else {
        RestorePlanStep::Snapshot(format_count as u32)
    }
}

} // verus!
