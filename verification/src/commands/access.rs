//! Which windows may run a command.
use vstd::prelude::*;

use crate::types::PublicError;

verus! {

/// The label is one of the allowed ones; otherwise the command is refused.
pub fn require_label(label: &str, allowed_labels: &[&str]) -> (r: Result<(), PublicError>)
    ensures
        r is Ok <==> exists|i: int| 0 <= i < allowed_labels@.len() && (#[trigger] allowed_labels@[i])@ == label@,
        r matches Err(e) ==> e.code@ == "command_window_unauthorized"@ && e.message@ == "窗口 `"@
            + label@ + "` 无权执行此操作。"@,
{
    let wanted = crate::text::chars_of(label);
    let mut i: usize = 0;
    while i < allowed_labels.len()
        invariant
            i <= allowed_labels@.len(),
            wanted@ == label@,
            forall|k: int| 0 <= k < i ==> (#[trigger] allowed_labels@[k])@ != label@,
        decreases allowed_labels.len() - i,
    {
        let candidate = crate::text::chars_of(allowed_labels[i]);
        if crate::text::chars_eq(&candidate, &wanted) {
            return Ok(());
        }
        i = i + 1;
    }
    let mut message = crate::text::chars_of("窗口 `");
    crate::text::push_str(&mut message, label);
    crate::text::push_str(&mut message, "` 无权执行此操作。");
    Err(
        PublicError {
            code: crate::text::owned("command_window_unauthorized"),
            message: crate::text::string_of(&message),
        },
    )
}

} // verus!
