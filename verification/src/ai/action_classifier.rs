//! Picks the AI action that fits a selected text best.
use vstd::prelude::*;

use crate::text::{contains, contains_str, lower, spec_is_ascii_alphabetic, spec_is_whitespace, trim};

verus! {

#[derive(Debug, Clone, Copy, PartialEq, Eq)]
pub enum AiAction {
    TranslateExplain,
    TranslateOnly,
    Explain,
    Summarize,
    CodeExplain,
    ErrorExplain,
    ExpandPrompt,
    MenuFallback,
}

/// The text mentions one of the usual words of an error report.
pub open spec fn looks_like_error(t: Seq<char>) -> bool {
    let l = lower(t);
    ||| contains(l, "error"@)
    ||| contains(l, "exception"@)
    ||| contains(l, "traceback"@)
    ||| contains(l, "panic"@)
    ||| contains(l, "failed"@)
    ||| contains(l, "stack trace"@)
    ||| contains(l, "cannot read"@)
    ||| contains(l, "undefined"@)
}

/// The text holds one of the usual markers of source code.
pub open spec fn looks_like_code(t: Seq<char>) -> bool {
    let l = lower(t);
    ||| contains(l, "function "@)
    ||| contains(l, "class "@)
    ||| contains(l, "import "@)
    ||| contains(l, "export "@)
    ||| contains(l, "select "@)
    ||| contains(l, " from "@)
    ||| contains(l, "fn "@)
    ||| contains(l, "def "@)
    ||| contains(l, "=>"@)
    ||| contains(l, "::"@)
    ||| contains(l, "{"@)
    ||| contains(l, "}"@)
    ||| contains(l, "</"@)
}

/// Number of characters that are not whitespace.
pub open spec fn count_non_whitespace(t: Seq<char>) -> nat
    decreases t.len(),
{
    if t.len() == 0 {
        0
    } else {
        count_non_whitespace(t.drop_last()) + if spec_is_whitespace(t.last()) {
            0nat
        } else {
            1nat
        }
    }
}

/// Number of ASCII letters.
pub open spec fn count_ascii_alphabetic(t: Seq<char>) -> nat
    decreases t.len(),
{
    if t.len() == 0 {
        0
    } else {
        count_ascii_alphabetic(t.drop_last()) + if spec_is_ascii_alphabetic(t.last()) {
            1nat
        } else {
            0nat
        }
    }
}

/// More than 65% of the non-whitespace characters are ASCII letters.
pub open spec fn mostly_english(t: Seq<char>) -> bool {
    20 * count_ascii_alphabetic(t) > 13 * count_non_whitespace(t)
}

pub open spec fn is_cjk(c: char) -> bool {
    0x4E00 <= (c as u32) <= 0x9FFF
}

pub open spec fn has_cjk(t: Seq<char>) -> bool {
    exists|i: int| 0 <= i < t.len() && is_cjk(t[i])
}

/// The action chosen for `text`, tried in this order on the trimmed text:
/// too short, error report, code, long text, mostly English, Chinese.
pub open spec fn spec_classify_action(text: Seq<char>) -> AiAction {
    let t = trim(text);
    if t.len() < 2 {
        AiAction::MenuFallback
    } else if looks_like_error(t) {
        AiAction::ErrorExplain
    } else if looks_like_code(t) {
        AiAction::CodeExplain
    } else if t.len() > 800 {
        AiAction::Summarize
    } else if mostly_english(t) {
        AiAction::TranslateExplain
    } else if has_cjk(t) {
        AiAction::Explain
    } else {
        AiAction::MenuFallback
    }
}

/// The text, trimmed and lowered, holds a word of an error report.
pub open spec fn mentions_error_marker(text: Seq<char>) -> bool {
    let l = lower(trim(text));
    ||| contains(l, "error"@)
    ||| contains(l, "exception"@)
    ||| contains(l, "traceback"@)
    ||| contains(l, "panic"@)
    ||| contains(l, "failed"@)
    ||| contains(l, "stack trace"@)
    ||| contains(l, "cannot read"@)
    ||| contains(l, "undefined"@)
}

/// Error reports come before code: a text of at least two characters
/// (trimmed) that mentions an error marker is an error to explain, whatever
/// code markers it also holds; a text that is too short is left to the
/// menu.
pub proof fn lemma_errors_are_explained_before_code(text: Seq<char>)
    ensures
        trim(text).len() >= 2 && mentions_error_marker(text) ==> spec_classify_action(text)
            == AiAction::ErrorExplain,
        trim(text).len() < 2 ==> spec_classify_action(text) == AiAction::MenuFallback,
{
}

pub fn classify_action(text: &str) -> (action: AiAction)
    ensures
        action == spec_classify_action(text@),
        trim(text@).len() >= 2 && mentions_error_marker(text@) ==> action == AiAction::ErrorExplain,
        trim(text@).len() < 2 ==> action == AiAction::MenuFallback,
{
    let trimmed = crate::text::trim_str(text);
    if trimmed.len() < 2 {
        return AiAction::MenuFallback;
    }
    if looks_like_error_chars(&trimmed) {
        return AiAction::ErrorExplain;
    }
    if looks_like_code_chars(&trimmed) {
        return AiAction::CodeExplain;
    }
    if trimmed.len() > 800 {
        return AiAction::Summarize;
    }
    if is_mostly_english(&trimmed) {
        return AiAction::TranslateExplain;
    }
    if contains_cjk(&trimmed) {
        return AiAction::Explain;
    }
    AiAction::MenuFallback
}

fn looks_like_error_chars(t: &[char]) -> (r: bool)
    ensures
        r == looks_like_error(t@),
{
    let l = crate::text::to_lower_chars(t);
    contains_str(&l, "error") || contains_str(&l, "exception") || contains_str(&l, "traceback")
        || contains_str(&l, "panic") || contains_str(&l, "failed") || contains_str(
        &l,
        "stack trace",
    ) || contains_str(&l, "cannot read") || contains_str(&l, "undefined")
}

fn looks_like_code_chars(t: &[char]) -> (r: bool)
    ensures
        r == looks_like_code(t@),
{
    let l = crate::text::to_lower_chars(t);
    contains_str(&l, "function ") || contains_str(&l, "class ") || contains_str(&l, "import ")
        || contains_str(&l, "export ") || contains_str(&l, "select ") || contains_str(&l, " from ")
        || contains_str(&l, "fn ") || contains_str(&l, "def ") || contains_str(&l, "=>")
        || contains_str(&l, "::") || contains_str(&l, "{") || contains_str(&l, "}")
        || contains_str(&l, "</")
}

fn is_mostly_english(t: &[char]) -> (r: bool)
    requires
        t.len() <= 800,
    ensures
        r == mostly_english(t@),
{
    let mut ascii_alpha: u64 = 0;
    let mut counted: u64 = 0;
    let mut i: usize = 0;
    while i < t.len()
        invariant
            i <= t.len() <= 800,
            ascii_alpha == count_ascii_alphabetic(t@.subrange(0, i as int)),
            counted == count_non_whitespace(t@.subrange(0, i as int)),
            ascii_alpha <= i,
            counted <= i,
        decreases t.len() - i,
    {
        let c = t[i];
        assert(t@.subrange(0, i + 1).drop_last() =~= t@.subrange(0, i as int));
        if !crate::text::is_whitespace(c) {
            counted = counted + 1;
        }
        if ('A' <= c && c <= 'Z') || ('a' <= c && c <= 'z') {
            ascii_alpha = ascii_alpha + 1;
        }
        i = i + 1;
    }
    assert(t@.subrange(0, t.len() as int) =~= t@);
    20 * ascii_alpha > 13 * counted
}

fn contains_cjk(t: &[char]) -> (r: bool)
    ensures
        r == has_cjk(t@),
{
    let mut i: usize = 0;
    while i < t.len()
        invariant
            i <= t.len(),
            forall|k: int| 0 <= k < i ==> !is_cjk(t@[k]),
        decreases t.len() - i,
    {
        let u: u32 = t[i] as u32;
        if 0x4E00 <= u && u <= 0x9FFF {
            return true;
        }
        i = i + 1;
    }
    false
}

} // verus!
