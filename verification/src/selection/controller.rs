//! The life of a selection, from probing to the open panel.
use vstd::prelude::*;

use crate::selection::types::SelectionCandidate;

verus! {

#[derive(Debug, Clone, Copy, PartialEq, Eq, Structural)]
pub enum SelectionStateKind {
    Idle,
    SelectionProbing,
    SelectionArmed,
    ButtonVisible,
    PanelOpen,
}

/// What happens to a selection; `R` and `P` are the rectangle and point
/// types of its candidate.
#[derive(Debug, Clone, PartialEq)]
pub enum SelectionEvent<R, P> {
    StartProbing,
    ReadSuccess(SelectionCandidate<R, P>),
    ReadFailed,
    MouseHoverSatisfied(P),
    ClickButton,
    Timeout,
    EscapePressed,
    ForegroundWindowChanged,
    KeyboardInputStarted,
    ClosePanel,
}

/// The states in which a candidate is held.
pub open spec fn holds_candidate(state: SelectionStateKind) -> bool {
    state == SelectionStateKind::SelectionArmed || state == SelectionStateKind::ButtonVisible
        || state == SelectionStateKind::PanelOpen
}

/// The controller's answer to an event: (state, candidate) after it.
pub open spec fn selection_step<R, P>(
    state: SelectionStateKind,
    candidate: Option<SelectionCandidate<R, P>>,
    event: SelectionEvent<R, P>,
) -> (SelectionStateKind, Option<SelectionCandidate<R, P>>) {
    match event {
        SelectionEvent::StartProbing => (SelectionStateKind::SelectionProbing, None),
        SelectionEvent::ReadSuccess(c) => (SelectionStateKind::SelectionArmed, Some(c)),
        SelectionEvent::MouseHoverSatisfied(_) => if candidate is Some {
            (SelectionStateKind::ButtonVisible, candidate)
        } else {
            (state, candidate)
        },
        SelectionEvent::ClickButton => if candidate is Some {
            (SelectionStateKind::PanelOpen, candidate)
        } else {
            (state, candidate)
        },
        _ => (SelectionStateKind::Idle, None),
    }
}

/// The events that dismiss the selection: a failed or timed-out read,
/// Escape, another foreground window, typing, and closing the panel.
pub open spec fn dismisses<R, P>(event: SelectionEvent<R, P>) -> bool {
    ||| event is ReadFailed
    ||| event is Timeout
    ||| event is EscapePressed
    ||| event is ForegroundWindowChanged
    ||| event is KeyboardInputStarted
    ||| event is ClosePanel
}

/// Whatever the controller held, a dismissing event (a failed or timed-out
/// read, Escape, another foreground window, typing, closing the panel)
/// leaves it idle with no candidate, and a successful read arms it with
/// the candidate read.
pub proof fn lemma_dismissing_events_clear_the_selection<R, P>(
    state: SelectionStateKind,
    candidate: Option<SelectionCandidate<R, P>>,
    read: SelectionCandidate<R, P>,
)
    ensures
        selection_step(state, candidate, SelectionEvent::<R, P>::ReadFailed) == (SelectionStateKind::Idle, None::<SelectionCandidate<R, P>>),
        selection_step(state, candidate, SelectionEvent::<R, P>::Timeout) == (SelectionStateKind::Idle, None::<SelectionCandidate<R, P>>),
        selection_step(state, candidate, SelectionEvent::<R, P>::EscapePressed) == (SelectionStateKind::Idle, None::<SelectionCandidate<R, P>>),
        selection_step(state, candidate, SelectionEvent::<R, P>::ForegroundWindowChanged) == (SelectionStateKind::Idle, None::<SelectionCandidate<R, P>>),
        selection_step(state, candidate, SelectionEvent::<R, P>::KeyboardInputStarted) == (SelectionStateKind::Idle, None::<SelectionCandidate<R, P>>),
        selection_step(state, candidate, SelectionEvent::<R, P>::ClosePanel) == (SelectionStateKind::Idle, None::<SelectionCandidate<R, P>>),
        selection_step(state, candidate, SelectionEvent::ReadSuccess(read)) == (SelectionStateKind::SelectionArmed, Some(read)),
{
}

/// Tracks the current selection and where it stands. A candidate is held
/// exactly while the selection is armed, its button shown or its panel open.
pub struct SelectionController<R, P> {
    state: SelectionStateKind,
    candidate: Option<SelectionCandidate<R, P>>,
}

impl<R, P> SelectionController<R, P> {
    pub closed spec fn state_spec(&self) -> SelectionStateKind {
        self.state
    }

    pub closed spec fn candidate_spec(&self) -> Option<SelectionCandidate<R, P>> {
        self.candidate
    }

    /// A candidate is held exactly in the states that hold one.
    pub open spec fn well_formed(&self) -> bool {
        self.candidate_spec() is Some <==> holds_candidate(self.state_spec())
    }

    pub fn new() -> (c: Self)
        ensures
            c.state_spec() == SelectionStateKind::Idle,
            c.candidate_spec() is None,
            c.well_formed(),
    {
        SelectionController { state: SelectionStateKind::Idle, candidate: None }
    }

    pub fn state_kind(&self) -> (s: SelectionStateKind)
        ensures
            s == self.state_spec(),
    {
        self.state
    }

    pub fn candidate(&self) -> (c: Option<&SelectionCandidate<R, P>>)
        ensures
            match c {
                Some(x) => self.candidate_spec() == Some(*x),
                None => self.candidate_spec() is None,
            },
    {
        match &self.candidate {
            Some(x) => Some(x),
            None => None,
        }
    }

    /// Moves the selection on (see `selection_step`); every event keeps the
    /// controller well formed.
    pub fn handle(&mut self, event: SelectionEvent<R, P>)
        ensures
            (final(self).state_spec(), final(self).candidate_spec()) == selection_step(
                old(self).state_spec(),
                old(self).candidate_spec(),
                event,
            ),
            old(self).well_formed() ==> final(self).well_formed(),
            dismisses(event) ==> final(self).state_spec() == SelectionStateKind::Idle
                && final(self).candidate_spec() is None,
            event matches SelectionEvent::ReadSuccess(c) ==> final(self).state_spec()
                == SelectionStateKind::SelectionArmed && final(self).candidate_spec() == Some(c),
    {
        match event {
            SelectionEvent::StartProbing => {
                self.state = SelectionStateKind::SelectionProbing;
                self.candidate = None;
            },
            SelectionEvent::ReadSuccess(candidate) => {
                self.candidate = Some(candidate);
                self.state = SelectionStateKind::SelectionArmed;
            },
            SelectionEvent::MouseHoverSatisfied(_) => {
                if self.candidate.is_some() {
                    self.state = SelectionStateKind::ButtonVisible;
                }
            },
            SelectionEvent::ClickButton => {
                if self.candidate.is_some() {
                    self.state = SelectionStateKind::PanelOpen;
                }
            },
            _ => {
                self.state = SelectionStateKind::Idle;
                self.candidate = None;
            },
        }
    }
}

impl<R, P> Default for SelectionController<R, P> {
    fn default() -> (c: Self)
        ensures
            c.state_spec() == SelectionStateKind::Idle,
            c.candidate_spec() is None,
    {
        Self::new()
    }
}

} // verus!
