//! What UI Automation read of a selection, and which of two reads to keep.
//! `R` is a screen rectangle, measured by the desktop shell.
use vstd::prelude::*;

use crate::text::trim;

verus! {

#[derive(Debug, Clone, Copy, PartialEq, Eq, Structural)]
pub enum SelectionConfidence {
    High,
    Medium,
    Low,
}

/// A selection read through UI Automation.
#[derive(Debug, Clone, PartialEq)]
pub struct UiaSelectionResult<R> {
    pub text: Option<String>,
    pub rects: Vec<R>,
    pub is_password_control: bool,
    pub confidence: SelectionConfidence,
}

/// A read carries text: it is not a password field and its text is not
/// blank.
pub open spec fn spec_is_usable<R>(r: UiaSelectionResult<R>) -> bool {
    !r.is_password_control && match r.text {
        Some(t) => trim(t@).len() > 0,
        None => false,
    }
}

/// Whether to keep the read found first over another one: a read with text
/// beats one without; between two with text, one with geometry beats one
/// without; otherwise the first stays.
pub open spec fn keeps_current(
    current_usable: bool,
    candidate_usable: bool,
    current_geometry: bool,
    candidate_geometry: bool,
) -> bool {
    !((current_usable && candidate_usable && !current_geometry && candidate_geometry) || (
    !current_usable && candidate_usable))
}

/// The best of a list of reads, each with whether its rectangles give an
/// anchor point: the first password field wins at once; otherwise reads
/// replace the best so far unless `keeps_current` says otherwise.
/// The second component says whether a password field ended the choice.
pub open spec fn best_attempt<R>(attempts: Seq<(Option<UiaSelectionResult<R>>, bool)>) -> (Option<
    (UiaSelectionResult<R>, bool),
>, bool)
    decreases attempts.len(),
{
    if attempts.len() == 0 {
        (None, false)
    } else {
        let (best, done) = best_attempt(attempts.drop_last());
        if done {
            (best, true)
        } else {
            match attempts.last().0 {
                None => (best, false),
                Some(a) => if a.is_password_control {
                    (Some((a, attempts.last().1)), true)
                } else {
                    match best {
                        Some((c, cg)) => if keeps_current(
                            spec_is_usable(c),
                            spec_is_usable(a),
                            cg,
                            attempts.last().1,
                        ) {
                            (Some((c, cg)), false)
                        } else {
                            (Some((a, attempts.last().1)), false)
                        },
                        None => (Some((a, attempts.last().1)), false),
                    }
                },
            }
        }
    }
}

/// No read of the list is a password field.
pub open spec fn no_password_read<R>(attempts: Seq<(Option<UiaSelectionResult<R>>, bool)>) -> bool {
    forall|i: int| 0 <= i < attempts.len() ==> !((#[trigger] attempts[i]).0 matches Some(a) && a.is_password_control)
}

/// A read that carries text: not a password field, and its text not blank.
pub open spec fn read_has_text<R>(read: Option<UiaSelectionResult<R>>) -> bool {
    match read {
        Some(a) => !a.is_password_control && match a.text {
            Some(t) => trim(t@).len() > 0,
            None => false,
        },
        None => false,
    }
}

/// Some read of the list carries text.
pub open spec fn some_read_has_text<R>(attempts: Seq<(Option<UiaSelectionResult<R>>, bool)>) -> bool {
    exists|i: int| 0 <= i < attempts.len() && read_has_text((#[trigger] attempts[i]).0)
}

/// A read without text never wins over one with text: where no read is a
/// password field and some read carries (non-blank) text, the read chosen
/// carries text too, whatever order the reads come in.
pub proof fn lemma_a_read_with_text_is_chosen<R>(attempts: Seq<(Option<UiaSelectionResult<R>>, bool)>)
    requires
        no_password_read(attempts),
        some_read_has_text(attempts),
    ensures
        best_attempt(attempts).0 is Some && read_has_text(Some(best_attempt(attempts).0->Some_0.0)),
    decreases attempts.len(),
{
    lemma_no_password_never_ends(attempts);
    let prefix = attempts.drop_last();
    let last = attempts.last();
    assert forall|i: int| 0 <= i < prefix.len() implies !((#[trigger] prefix[i]).0 matches Some(a)
        && a.is_password_control) by {
        assert(prefix[i] == attempts[i]);
    }
    lemma_no_password_never_ends(prefix);
    if !read_has_text(last.0) {
        let i = choose|i: int| 0 <= i < attempts.len() && read_has_text((#[trigger] attempts[i]).0);
        assert(i != attempts.len() - 1);
        assert(prefix[i] == attempts[i]);
        lemma_a_read_with_text_is_chosen(prefix);
    } else if prefix.len() > 0 {
        assert(attempts.len() > 0);
    }
}

/// Without a password field among the reads, the choice never ends early.
proof fn lemma_no_password_never_ends<R>(attempts: Seq<(Option<UiaSelectionResult<R>>, bool)>)
    requires
        no_password_read(attempts),
    ensures
        !best_attempt(attempts).1,
        attempts.len() > 0 && attempts.last().0 is Some ==> best_attempt(attempts).0 is Some,
        attempts.len() > 0 && best_attempt(attempts.drop_last()).0 is Some ==> best_attempt(attempts).0 is Some,
    decreases attempts.len(),
{
    if attempts.len() > 0 {
        let prefix = attempts.drop_last();
        assert forall|i: int| 0 <= i < prefix.len() implies !((#[trigger] prefix[i]).0 matches Some(a)
            && a.is_password_control) by {
            assert(prefix[i] == attempts[i]);
        }
        lemma_no_password_never_ends(prefix);
        assert(attempts[attempts.len() - 1] == attempts.last());
    }
}

impl<R: Copy> UiaSelectionResult<R> {
    /// See `spec_is_usable`.
    pub fn is_usable(&self) -> (r: bool)
        ensures
            r == spec_is_usable(*self),
    {
        if self.is_password_control {
            return false;
        }
        match &self.text {
            Some(t) => crate::text::trim_str(t.as_str()).len() > 0,
            None => false,
        }
    }

    /// The first rectangle.
    pub fn primary_rect(&self) -> (r: Option<R>)
        ensures
            self.rects@.len() == 0 ==> r is None,
            self.rects@.len() > 0 ==> r == Some(self.rects@[0]),
    {
        if self.rects.len() > 0 {
            Some(self.rects[0])
        } else {
            None
        }
    }

    /// The read of the focused element, unless the window's read is better
    /// (see `best_attempt`); each comes with whether its rectangles give an
    /// anchor point.
    pub fn prefer_focused_attempt(
        focused: Option<UiaSelectionResult<R>>,
        focused_has_anchor: bool,
        window: Option<UiaSelectionResult<R>>,
        window_has_anchor: bool,
    ) -> (r: Option<UiaSelectionResult<R>>)
        ensures
            r == match best_attempt(seq![(focused, focused_has_anchor), (window, window_has_anchor)]).0 {
                Some((a, _)) => Some(a),
                None => None,
            },
            !(focused matches Some(f) && f.is_password_control) && !(window matches Some(w)
                && w.is_password_control) && (read_has_text(focused) || read_has_text(window))
                ==> read_has_text(r),
    {
        let mut attempts: Vec<(Option<UiaSelectionResult<R>>, bool)> = Vec::new();
        attempts.push((focused, focused_has_anchor));
        attempts.push((window, window_has_anchor));
        proof {
            assert(attempts@ =~= seq![(focused, focused_has_anchor), (window, window_has_anchor)]);
            assert(attempts@[0] == (focused, focused_has_anchor));
            assert(attempts@[1] == (window, window_has_anchor));
        }
        Self::prefer_best_attempt(attempts)
    }

    /// The best of a list of reads (see `best_attempt`).
    pub fn prefer_best_attempt(attempts: Vec<(Option<UiaSelectionResult<R>>, bool)>) -> (r: Option<
        UiaSelectionResult<R>,
    >)
        ensures
            r == match best_attempt(attempts@).0 {
                Some((a, _)) => Some(a),
                None => None,
            },
            no_password_read(attempts@) && some_read_has_text(attempts@) ==> read_has_text(r),
    {
        let ghost all = attempts@;
        let n = attempts.len();
        let mut rest = attempts;
        let mut best: Option<(UiaSelectionResult<R>, bool)> = None;
        let mut k: usize = 0;
        assert(all.subrange(0, 0) =~= Seq::<(Option<UiaSelectionResult<R>>, bool)>::empty());
        assert(rest@ =~= all.subrange(0, all.len() as int));
        while rest.len() > 0
            invariant
                k <= all.len(),
                all.len() == n,
                all == attempts@,
                rest@ == all.subrange(k as int, all.len() as int),
                best_attempt(all.subrange(0, k as int)) == (best, false),
            decreases rest.len(),
        {
            let ghost pre = all.subrange(0, k as int);
            assert(all.subrange(0, k + 1).drop_last() =~= pre);
            assert(all.subrange(0, k + 1).last() == all[k as int]);
            let ghost head = rest@[0];
            let (attempt, geometry) = rest.remove(0);
            assert(head == all[k as int]);
            assert((attempt, geometry) == head);
            assert(rest@ =~= all.subrange(k + 1, all.len() as int));
            match attempt {
                None => {},
                Some(a) => {
                    if a.is_password_control {
                        proof {
                            let s1 = all.subrange(0, k + 1);
                            assert(s1.last() == (Some(a), geometry));
                            assert(best_attempt(s1) == (Some((a, geometry)), true));
                            lemma_best_attempt_done(all, k as int + 1);
                            assert(best_attempt(all).0 == Some((a, geometry)));
                        }
                        return Some(a);
                    }
                    let a_usable = a.is_usable();
                    best = match best {
                        Some((c, cg)) => {
                            let c_usable = c.is_usable();
                            if !((c_usable && a_usable && !cg && geometry) || (!c_usable && a_usable)) {
                                Some((c, cg))
                            } else {
                                Some((a, geometry))
                            }
                        },
                        None => Some((a, geometry)),
                    };
                },
            }
            k = k + 1;
        }
        assert(all.subrange(0, all.len() as int) =~= all);
        proof {
            if no_password_read(all) && some_read_has_text(all) {
                lemma_a_read_with_text_is_chosen(all);
            }
        }
        match best {
            Some((a, _)) => Some(a),
            None => None,
        }
    }
}

/// Once a password field ended the choice, later reads change nothing.
proof fn lemma_best_attempt_done<R>(all: Seq<(Option<UiaSelectionResult<R>>, bool)>, k: int)
    requires
        0 <= k <= all.len(),
        best_attempt(all.subrange(0, k)).1,
    ensures
        best_attempt(all) == best_attempt(all.subrange(0, k)),
    decreases all.len() - k,
{
    if k < all.len() {
        assert(all.subrange(0, k + 1).drop_last() =~= all.subrange(0, k));
        lemma_best_attempt_done(all, k + 1);
    } else {
        assert(all.subrange(0, k) =~= all);
    }
}

} // verus!
