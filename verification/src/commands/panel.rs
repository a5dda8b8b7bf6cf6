//! What the floating windows are told: the output target being edited, the
//! source text, and a translation result.
use vstd::prelude::*;

use crate::text::trim;
use crate::types::PublicError;

verus! {

/// Which output target the preset panel edits.
#[derive(Debug, Clone, Copy, PartialEq, Eq, Structural)]
pub enum TargetPresetKind {
    Replacement,
    Translation,
}

#[derive(Debug, Clone, PartialEq)]
pub struct TargetPresetContext {
    pub kind: TargetPresetKind,
}

#[derive(Debug, Clone, PartialEq)]
pub struct SourceTextContext {
    pub text: String,
}

#[derive(Debug, Clone)]
pub struct TranslateResultPayload {
    pub original_text: String,
    pub translated_text: String,
}

/// The text the source window shows: the selection, trimmed; refused where
/// nothing is left of it.
pub fn source_text_for_window(text: &str) -> (r: Result<SourceTextContext, PublicError>)
    ensures
        match r {
            Ok(c) => trim(text@).len() > 0 && c.text@ == trim(text@),
            Err(e) => trim(text@).len() == 0 && e.code@ == "source_text_required"@,
        },
{
    let t = crate::text::trim_str(text);
    if t.len() == 0 {
        return Err(crate::types::public_error("source_text_required", "打开原文窗口前需要选中文本。"));
    }
    Ok(SourceTextContext { text: crate::text::string_of(&t) })
}

} // verus!
