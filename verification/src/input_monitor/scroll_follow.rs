//! The bookkeeping of following a selection while its window scrolls.
//!
//! One follow session runs per burst of scrolling. The wheel handler starts
//! or extends it; a follow thread measures where the selection went and
//! commits each measurement. Measuring happens outside the shared state, so
//! every result is checked against the session, the wheel event count and
//! the selection generation it was taken under before anything changes.
//! `G` is the session's geometry (the tracked rectangle, the wheel travel
//! since the last measurement and the reference heights), which the
//! desktop shell keeps and updates.
use vstd::prelude::*;

use crate::input_monitor::events::ScrollPace;

verus! {

/// One more, stopping at the largest value.
pub open spec fn sat_inc(x: u64) -> u64 {
    if x == u64::MAX {
        x
    } else {
        (x + 1) as u64
    }
}

pub open spec fn sat_inc_u32(x: u32) -> u32 {
    if x == u32::MAX {
        x
    } else {
        (x + 1) as u32
    }
}

/// A follow session.
#[derive(Debug, Clone, PartialEq)]
pub struct ScrollSession<G> {
    pub session_id: u64,
    /// The follow thread still runs.
    pub running: bool,
    /// The selection generation the session belongs to.
    pub generation: u64,
    pub pace: ScrollPace,
    pub geometry: G,
    /// The tracked rectangle comes from a measurement, not a prediction.
    pub tracked_rect_measured: bool,
    /// The wheel travel since the ratio anchor was measured throughout.
    pub ratio_burst_valid: bool,
    /// How many wheel events the session has seen.
    pub wheel_seq: u64,
    /// Failed measurements since the last good one.
    pub failures: u32,
    /// A measurement after the wheel went idle found the selection at rest.
    pub settled_measurement_stable: bool,
    /// The button is hidden for fast scrolling.
    pub hidden: bool,
    /// The session ended because the selection was lost.
    pub abandoned: bool,
}

/// The follow state: which selection is current, and its session if any.
#[derive(Debug, Clone, PartialEq)]
pub struct ScrollFollowState<G> {
    pub generation: u64,
    pub tracker: Option<ScrollSession<G>>,
}

/// What a wheel event may start from.
#[derive(Debug, Clone, Copy, PartialEq, Eq, Structural)]
pub struct WheelBaseline {
    /// The session's tracked rectangle may be the starting point: the
    /// session still runs (its accumulated prediction), or it was measured.
    pub reuse_tracked_rect: bool,
    /// The starting point was measured.
    pub baseline_measured: bool,
    /// The last session of this selection ended by losing it.
    pub recovering_from_abandon: bool,
}

/// What the wheel handler does after registering an event.
#[derive(Debug, Clone, Copy, PartialEq, Eq, Structural)]
pub struct WheelOutcome {
    /// A new session was started and its follow thread must be spawned.
    pub started: bool,
    /// Hide the button now (once, on entering fast scrolling).
    pub hide_now: bool,
}

/// What a measurement led to.
#[derive(Debug, Clone, Copy, PartialEq, Eq, Structural)]
pub enum ScrollFollowCommit {
    /// The measurement is out of date; nothing changed.
    Stale,
    /// The selection left the visible area; the session is abandoned.
    Abandon,
    /// Recorded, but not shown yet (still settling after fast scrolling).
    MeasuredOnly,
    /// Recorded; show the button there.
    Show,
}

/// Sessions never belong to a selection later than the current one.
pub open spec fn follow_well_formed<G>(s: ScrollFollowState<G>) -> bool {
    s.tracker matches Some(t) ==> t.generation <= s.generation
}

/// The session is the one that took a measurement, under the current
/// selection and with no wheel event since.
pub open spec fn is_current<G>(s: ScrollFollowState<G>, session_id: u64, wheel_seq: u64) -> bool {
    s.tracker matches Some(t) && t.session_id == session_id && t.wheel_seq == wheel_seq
        && t.generation == s.generation
}

/// A session runs for the current selection.
pub open spec fn has_running_session<G>(s: ScrollFollowState<G>) -> bool {
    s.tracker matches Some(t) && t.running && t.generation == s.generation
}

/// The state after the selection changed.
pub open spec fn after_new_selection<G>(s: ScrollFollowState<G>) -> ScrollFollowState<G> {
    ScrollFollowState { generation: sat_inc(s.generation), ..s }
}

/// What a wheel event may start from (see `WheelBaseline`).
pub open spec fn baseline_of<G>(s: ScrollFollowState<G>) -> WheelBaseline {
    match s.tracker {
        Some(t) => if t.generation != s.generation {
            WheelBaseline { reuse_tracked_rect: false, baseline_measured: false, recovering_from_abandon: false }
        } else {
            WheelBaseline {
                reuse_tracked_rect: t.running || t.tracked_rect_measured,
                baseline_measured: t.tracked_rect_measured,
                recovering_from_abandon: !t.running && t.abandoned,
            }
        },
        None => WheelBaseline { reuse_tracked_rect: false, baseline_measured: false, recovering_from_abandon: false },
    }
}

/// The state and outcome of a wheel event. Without a running session of
/// the current selection a new one starts with the given geometry, hidden
/// while fast or after an abandoned one, and learning the scroll ratio only
/// from a measured start outside fast scrolling. A running session takes
/// the geometry, counts the event, forgets that it was measured or at rest,
/// and hides once on entering fast scrolling.
pub open spec fn after_wheel<G>(
    s: ScrollFollowState<G>,
    session_id: u64,
    pace: ScrollPace,
    baseline: WheelBaseline,
    geometry: G,
) -> (ScrollFollowState<G>, WheelOutcome) {
    match s.tracker {
        Some(t) if t.running && t.generation == s.generation => {
            let hide_now = pace == ScrollPace::Fast && !t.hidden;
            (
                ScrollFollowState {
                    tracker: Some(
                        ScrollSession {
                            pace,
                            geometry,
                            tracked_rect_measured: false,
                            wheel_seq: sat_inc(t.wheel_seq),
                            settled_measurement_stable: false,
                            hidden: t.hidden || hide_now,
                            ..t
                        },
                    ),
                    ..s
                },
                WheelOutcome { started: false, hide_now },
            )
        },
        _ => (
            ScrollFollowState {
                tracker: Some(
                    ScrollSession {
                        session_id,
                        running: true,
                        generation: s.generation,
                        pace,
                        geometry,
                        tracked_rect_measured: false,
                        ratio_burst_valid: pace != ScrollPace::Fast && baseline.baseline_measured,
                        wheel_seq: 1,
                        failures: 0,
                        settled_measurement_stable: false,
                        hidden: pace == ScrollPace::Fast || baseline.recovering_from_abandon,
                        abandoned: false,
                    },
                ),
                ..s
            },
            WheelOutcome { started: true, hide_now: pace == ScrollPace::Fast },
        ),
    }
}

/// The state and commit of a measurement taken under `session_id` and
/// `wheel_seq`. An out-of-date one changes nothing. A selection that left
/// the visible area ends the session as abandoned. Otherwise the geometry is
/// taken as measured and the failures are cleared; the session is at rest
/// only where the measurement was stable and shown; a shown one unhides the
/// button, and a stable shown one opens a new ratio window.
pub open spec fn after_measurement<G>(
    s: ScrollFollowState<G>,
    session_id: u64,
    wheel_seq: u64,
    trackable: bool,
    measurement_is_stable: bool,
    will_show: bool,
    geometry: G,
) -> (ScrollFollowState<G>, ScrollFollowCommit) {
    if !is_current(s, session_id, wheel_seq) {
        (s, ScrollFollowCommit::Stale)
    } else {
        let t = s.tracker->0;
        if !trackable {
            (
                ScrollFollowState { tracker: Some(ScrollSession { running: false, abandoned: true, ..t }), ..s },
                ScrollFollowCommit::Abandon,
            )
        } else {
            let at_rest = measurement_is_stable && will_show;
            (
                ScrollFollowState {
                    tracker: Some(
                        ScrollSession {
                            geometry,
                            tracked_rect_measured: true,
                            ratio_burst_valid: t.ratio_burst_valid || at_rest,
                            failures: 0,
                            settled_measurement_stable: at_rest,
                            hidden: t.hidden && !will_show,
                            ..t
                        },
                    ),
                    ..s
                },
                if will_show {
                    ScrollFollowCommit::Show
                } else {
                    ScrollFollowCommit::MeasuredOnly
                },
            )
        }
    }
}

/// The session ends (running no more, abandoned or not) where it is
/// `session_id` of the current selection and, where `expected_wheel_seq` is
/// given, no wheel event came since.
pub open spec fn finish_applies<G>(s: ScrollFollowState<G>, session_id: u64, expected_wheel_seq: Option<u64>) -> bool {
    s.tracker matches Some(t) && t.session_id == session_id && t.generation == s.generation && (
    expected_wheel_seq matches Some(e) ==> t.wheel_seq == e)
}

impl<G> ScrollFollowState<G> {
    pub fn new() -> (s: Self)
        ensures
            s.generation == 0,
            s.tracker is None,
            follow_well_formed(s),
    {
        ScrollFollowState { generation: 0, tracker: None }
    }

    /// The selection changed: sessions of the old one no longer count.
    pub fn next_generation(&mut self)
        ensures
            *final(self) == after_new_selection(*old(self)),
            follow_well_formed(*old(self)) ==> follow_well_formed(*final(self)),
    {
        self.generation = self.generation.saturating_add(1);
    }

    /// The session `session_id` still runs for the current selection, so
    /// its follow thread may take another sample.
    pub fn session_is_live(&self, session_id: u64) -> (r: bool)
        ensures
            r == (has_running_session(*self) && self.tracker->0.session_id == session_id),
    {
        match &self.tracker {
            Some(t) => t.session_id == session_id && t.running && t.generation == self.generation,
            None => false,
        }
    }

    /// What a wheel event may start from; a session of an earlier
    /// selection offers nothing.
    pub fn wheel_baseline(&self) -> (r: WheelBaseline)
        ensures
            r == baseline_of(*self),
    {
        match &self.tracker {
            Some(t) => if t.generation != self.generation {
                WheelBaseline { reuse_tracked_rect: false, baseline_measured: false, recovering_from_abandon: false }
            } else {
                WheelBaseline {
                    reuse_tracked_rect: t.running || t.tracked_rect_measured,
                    baseline_measured: t.tracked_rect_measured,
                    recovering_from_abandon: !t.running && t.abandoned,
                }
            },
            None => WheelBaseline {
                reuse_tracked_rect: false,
                baseline_measured: false,
                recovering_from_abandon: false,
            },
        }
    }

    /// A wheel event starts a new session (see `after_wheel`).
    pub fn needs_restart(&self) -> (r: bool)
        ensures
            r == !has_running_session(*self),
    {
        match &self.tracker {
            Some(t) => !t.running || t.generation != self.generation,
            None => true,
        }
    }

    /// Registers a wheel event (see `after_wheel`).
    pub fn register_wheel(
        &mut self,
        session_id: u64,
        pace: ScrollPace,
        baseline: WheelBaseline,
        geometry: G,
    ) -> (r: WheelOutcome)
        ensures
            (*final(self), r) == after_wheel(*old(self), session_id, pace, baseline, geometry),
            follow_well_formed(*old(self)) ==> follow_well_formed(*final(self)),
    {
        if self.needs_restart() {
            self.tracker = Some(
                ScrollSession {
                    session_id,
                    running: true,
                    generation: self.generation,
                    pace,
                    geometry,
                    tracked_rect_measured: false,
                    ratio_burst_valid: pace != ScrollPace::Fast && baseline.baseline_measured,
                    wheel_seq: 1,
                    failures: 0,
                    settled_measurement_stable: false,
                    hidden: pace == ScrollPace::Fast || baseline.recovering_from_abandon,
                    abandoned: false,
                },
            );
            return WheelOutcome { started: true, hide_now: pace == ScrollPace::Fast };
        }
        let t = self.tracker.take().unwrap();
        let hide_now = pace == ScrollPace::Fast && !t.hidden;
        let hidden = t.hidden || hide_now;
        self.tracker = Some(
            ScrollSession {
                pace,
                geometry,
                tracked_rect_measured: false,
                wheel_seq: t.wheel_seq.saturating_add(1),
                settled_measurement_stable: false,
                hidden,
                ..t
            },
        );
        WheelOutcome { started: false, hide_now }
    }

    /// Commits a measurement (see `after_measurement`).
    pub fn apply_measurement(
        &mut self,
        session_id: u64,
        wheel_seq: u64,
        trackable: bool,
        measurement_is_stable: bool,
        will_show: bool,
        geometry: G,
    ) -> (r: ScrollFollowCommit)
        ensures
            (*final(self), r) == after_measurement(
                *old(self),
                session_id,
                wheel_seq,
                trackable,
                measurement_is_stable,
                will_show,
                geometry,
            ),
            follow_well_formed(*old(self)) ==> follow_well_formed(*final(self)),
    {
        let current = match &self.tracker {
            Some(t) => t.session_id == session_id && t.wheel_seq == wheel_seq && t.generation
                == self.generation,
            None => false,
        };
        if !current {
            return ScrollFollowCommit::Stale;
        }
        let t = self.tracker.take().unwrap();
        if !trackable {
            self.tracker = Some(ScrollSession { running: false, abandoned: true, ..t });
            return ScrollFollowCommit::Abandon;
        }
        let at_rest = measurement_is_stable && will_show;
        let ratio_burst_valid = t.ratio_burst_valid || at_rest;
        let hidden = t.hidden && !will_show;
        self.tracker = Some(
            ScrollSession {
                geometry,
                tracked_rect_measured: true,
                ratio_burst_valid,
                failures: 0,
                settled_measurement_stable: at_rest,
                hidden,
                ..t
            },
        );
        if will_show {
            ScrollFollowCommit::Show
        } else {
            ScrollFollowCommit::MeasuredOnly
        }
    }

    /// A failed measurement counts only for the session and wheel event it
    /// was taken under.
    pub fn record_measure_failure(&mut self, session_id: u64, wheel_seq: u64)
        ensures
            final(self).generation == old(self).generation,
            match old(self).tracker {
                Some(t) => if t.session_id == session_id && t.wheel_seq == wheel_seq {
                    final(self).tracker == Some(ScrollSession { failures: sat_inc_u32(t.failures), ..t })
                } else {
                    final(self).tracker == old(self).tracker
                },
                None => final(self).tracker is None,
            },
    {
        match self.tracker.take() {
            Some(t) => {
                if t.session_id == session_id && t.wheel_seq == wheel_seq {
                    let failures = t.failures.saturating_add(1);
                    self.tracker = Some(ScrollSession { failures, ..t });
                } else {
                    self.tracker = Some(t);
                }
            },
            None => {},
        }
    }

    /// A frame went unmeasured: the wheel travel since the ratio anchor no
    /// longer teaches the scroll ratio.
    pub fn invalidate_ratio_burst(&mut self, session_id: u64)
        ensures
            final(self).generation == old(self).generation,
            match old(self).tracker {
                Some(t) => if t.session_id == session_id {
                    final(self).tracker == Some(ScrollSession { ratio_burst_valid: false, ..t })
                } else {
                    final(self).tracker == old(self).tracker
                },
                None => final(self).tracker is None,
            },
    {
        match self.tracker.take() {
            Some(t) => {
                if t.session_id == session_id {
                    self.tracker = Some(ScrollSession { ratio_burst_valid: false, ..t });
                } else {
                    self.tracker = Some(t);
                }
            },
            None => {},
        }
    }

    /// Showing the button failed after a commit: the session is not at rest
    /// after all, and it is hidden again where it was hidden before.
    pub fn rollback_failed_show(&mut self, session_id: u64, restore_hidden: bool)
        ensures
            final(self).generation == old(self).generation,
            match old(self).tracker {
                Some(t) => if t.session_id == session_id {
                    final(self).tracker == Some(
                        ScrollSession {
                            settled_measurement_stable: false,
                            hidden: t.hidden || restore_hidden,
                            ..t
                        },
                    )
                } else {
                    final(self).tracker == old(self).tracker
                },
                None => final(self).tracker is None,
            },
    {
        match self.tracker.take() {
            Some(t) => {
                if t.session_id == session_id {
                    let hidden = t.hidden || restore_hidden;
                    self.tracker = Some(ScrollSession { settled_measurement_stable: false, hidden, ..t });
                } else {
                    self.tracker = Some(t);
                }
            },
            None => {},
        }
    }

    /// While the button was being shown a wheel event hid the session again.
    pub fn hidden_since_show(&self, session_id: u64) -> (r: bool)
        ensures
            r == (self.tracker matches Some(t) && t.session_id == session_id && t.hidden),
    {
        match &self.tracker {
            Some(t) => t.session_id == session_id && t.hidden,
            None => false,
        }
    }

    /// Ends the session (see `finish_applies`), abandoned or not; says
    /// whether it ended.
    pub fn finish(&mut self, session_id: u64, expected_wheel_seq: Option<u64>, abandon: bool) -> (r: bool)
        ensures
            r == finish_applies(*old(self), session_id, expected_wheel_seq),
            r ==> *final(self) == (ScrollFollowState {
                tracker: Some(ScrollSession { running: false, abandoned: abandon, ..old(self).tracker->0 }),
                ..*old(self)
            }),
            !r ==> *final(self) == *old(self),
    {
        let ends = match &self.tracker {
            Some(t) => t.session_id == session_id && t.generation == self.generation && match expected_wheel_seq {
                Some(e) => t.wheel_seq == e,
                None => true,
            },
            None => false,
        };
        if !ends {
            return false;
        }
        let t = self.tracker.take().unwrap();
        self.tracker = Some(ScrollSession { running: false, abandoned: abandon, ..t });
        true
    }
}

/// The button reappears after fast scrolling only once the selection is
/// at rest; a visible one follows every measurement.
pub fn measurement_will_show(hidden: bool, measurement_is_stable: bool) -> (r: bool)
    ensures
        r == (!hidden || measurement_is_stable),
{
    !hidden || measurement_is_stable
}

/// UI Automation is asked on every `stride`-th sample, and always once the
/// wheel went idle.
pub fn measure_allows_uia(sample_index: u64, stride: u64, settled: bool) -> (r: bool)
    requires
        stride > 0,
    ensures
        r == (sample_index % stride == 0 || settled),
{
    sample_index % stride == 0 || settled
}

/// A new selection makes every measurement of the old one out of date: it
/// no longer commits and changes nothing (while the generation can grow).
pub proof fn lemma_new_selection_voids_measurements<G>(
    s: ScrollFollowState<G>,
    session_id: u64,
    wheel_seq: u64,
    trackable: bool,
    measurement_is_stable: bool,
    will_show: bool,
    geometry: G,
)
    requires
        follow_well_formed(s),
        s.generation < u64::MAX,
    ensures
        after_measurement(
            after_new_selection(s),
            session_id,
            wheel_seq,
            trackable,
            measurement_is_stable,
            will_show,
            geometry,
        ) == (after_new_selection(s), ScrollFollowCommit::Stale),
{
}

/// A wheel event while a session runs makes the measurements taken before
/// it out of date (while the event count can grow).
pub proof fn lemma_wheel_voids_measurements<G>(
    s: ScrollFollowState<G>,
    session_id: u64,
    pace: ScrollPace,
    baseline: WheelBaseline,
    geometry: G,
    measured_session: u64,
    trackable: bool,
    measurement_is_stable: bool,
    will_show: bool,
    measured_geometry: G,
)
    requires
        has_running_session(s),
        s.tracker->0.wheel_seq < u64::MAX,
    ensures
        ({
            let s2 = after_wheel(s, session_id, pace, baseline, geometry).0;
            after_measurement(
                s2,
                measured_session,
                s.tracker->0.wheel_seq,
                trackable,
                measurement_is_stable,
                will_show,
                measured_geometry,
            ) == (s2, ScrollFollowCommit::Stale)
        }),
{
}

/// Fast scrolling hides the button once: a second fast wheel event right
/// after a first one does not hide it again, and starts no session.
pub proof fn lemma_fast_scrolling_hides_once<G>(
    s: ScrollFollowState<G>,
    first_session: u64,
    second_session: u64,
    baseline: WheelBaseline,
    second_baseline: WheelBaseline,
    geometry: G,
    second_geometry: G,
)
    ensures
        ({
            let (s1, _) = after_wheel(s, first_session, ScrollPace::Fast, baseline, geometry);
            let (_, r2) = after_wheel(s1, second_session, ScrollPace::Fast, second_baseline, second_geometry);
            r2 == WheelOutcome { started: false, hide_now: false }
        }),
{
}

/// Losing the selection is remembered: the next wheel event of the same
/// selection starts a session that stays hidden until a real measurement.
pub proof fn lemma_abandon_keeps_next_session_hidden<G>(
    s: ScrollFollowState<G>,
    session_id: u64,
    wheel_seq: u64,
    measurement_is_stable: bool,
    will_show: bool,
    geometry: G,
    next_session: u64,
    pace: ScrollPace,
    next_geometry: G,
)
    requires
        is_current(s, session_id, wheel_seq),
    ensures
        ({
            let (s1, c) = after_measurement(s, session_id, wheel_seq, false, measurement_is_stable, will_show, geometry);
            let b = baseline_of(s1);
            let (s2, r) = after_wheel(s1, next_session, pace, b, next_geometry);
            &&& c == ScrollFollowCommit::Abandon
            &&& b.recovering_from_abandon
            &&& r.started
            &&& s2.tracker->0.hidden
        }),
{
}

} // verus!
