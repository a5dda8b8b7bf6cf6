use selection_ai_assistant_lib::input_monitor::events::ScrollPace;
use selection_ai_assistant_lib::input_monitor::scroll_follow::{
    measure_allows_uia, measurement_will_show, ScrollFollowCommit, ScrollFollowState,
    WheelBaseline, WheelOutcome,
};

/// The geometry the shell would keep: tracked y and wheel travel.
type Geometry = (i32, i32);

fn started_session(pace: ScrollPace) -> ScrollFollowState<Geometry> {
    let mut state = ScrollFollowState::new();
    let baseline = state.wheel_baseline();
    let outcome = state.register_wheel(1, pace, baseline, (100, 120));
    assert!(outcome.started);
    state
}

#[test]
fn first_wheel_event_starts_a_session() {
    let mut state: ScrollFollowState<Geometry> = ScrollFollowState::new();
    let baseline = state.wheel_baseline();
    assert_eq!(
        baseline,
        WheelBaseline { reuse_tracked_rect: false, baseline_measured: false, recovering_from_abandon: false }
    );
    assert!(state.needs_restart());
    let outcome = state.register_wheel(1, ScrollPace::Slow, baseline, (100, 120));
    assert_eq!(outcome, WheelOutcome { started: true, hide_now: false });
    let session = state.tracker.as_ref().unwrap();
    assert_eq!(session.wheel_seq, 1);
    assert!(session.running);
    assert!(!session.hidden);
    assert!(!session.ratio_burst_valid);
    assert!(state.session_is_live(1));
    assert!(!state.session_is_live(2));
}

#[test]
fn further_wheel_events_extend_the_session() {
    let mut state = started_session(ScrollPace::Slow);
    assert!(!state.needs_restart());
    let baseline = state.wheel_baseline();
    assert!(baseline.reuse_tracked_rect);
    let outcome = state.register_wheel(2, ScrollPace::Slow, baseline, (90, 240));
    assert_eq!(outcome, WheelOutcome { started: false, hide_now: false });
    let session = state.tracker.as_ref().unwrap();
    assert_eq!(session.session_id, 1);
    assert_eq!(session.wheel_seq, 2);
    assert_eq!(session.geometry, (90, 240));
}

#[test]
fn fast_scrolling_hides_only_once() {
    let mut state = started_session(ScrollPace::Slow);
    let baseline = state.wheel_baseline();
    let first = state.register_wheel(2, ScrollPace::Fast, baseline, (80, 240));
    assert!(first.hide_now);
    let baseline = state.wheel_baseline();
    let second = state.register_wheel(3, ScrollPace::Fast, baseline, (60, 360));
    assert!(!second.hide_now);
    assert!(state.tracker.as_ref().unwrap().hidden);
}

#[test]
fn a_measurement_after_a_wheel_event_is_stale() {
    let mut state = started_session(ScrollPace::Slow);
    let baseline = state.wheel_baseline();
    state.register_wheel(2, ScrollPace::Slow, baseline, (90, 240));
    let before = state.clone();
    let commit = state.apply_measurement(1, 1, true, true, true, (50, 0));
    assert_eq!(commit, ScrollFollowCommit::Stale);
    assert_eq!(state, before);
}

#[test]
fn a_new_selection_voids_the_running_session() {
    let mut state = started_session(ScrollPace::Slow);
    state.next_generation();
    assert!(!state.session_is_live(1));
    assert_eq!(state.apply_measurement(1, 1, true, true, true, (0, 0)), ScrollFollowCommit::Stale);
    assert!(!state.finish(1, None, false));
    assert!(state.needs_restart());
}

#[test]
fn a_current_measurement_is_recorded_and_shown() {
    let mut state = started_session(ScrollPace::Slow);
    state.record_measure_failure(1, 1);
    assert_eq!(state.tracker.as_ref().unwrap().failures, 1);
    let commit = state.apply_measurement(1, 1, true, true, true, (70, 0));
    assert_eq!(commit, ScrollFollowCommit::Show);
    let session = state.tracker.as_ref().unwrap();
    assert_eq!(session.geometry, (70, 0));
    assert!(session.tracked_rect_measured);
    assert!(session.settled_measurement_stable);
    assert!(session.ratio_burst_valid);
    assert_eq!(session.failures, 0);
}

#[test]
fn a_hidden_session_stays_hidden_until_the_selection_is_at_rest() {
    let mut state = started_session(ScrollPace::Fast);
    assert!(state.tracker.as_ref().unwrap().hidden);
    let will_show = measurement_will_show(true, false);
    assert!(!will_show);
    let commit = state.apply_measurement(1, 1, true, false, will_show, (70, 0));
    assert_eq!(commit, ScrollFollowCommit::MeasuredOnly);
    assert!(state.tracker.as_ref().unwrap().hidden);
    let will_show = measurement_will_show(true, true);
    let commit = state.apply_measurement(1, 1, true, true, will_show, (72, 0));
    assert_eq!(commit, ScrollFollowCommit::Show);
    assert!(!state.tracker.as_ref().unwrap().hidden);
}

#[test]
fn losing_the_selection_abandons_and_the_next_session_starts_hidden() {
    let mut state = started_session(ScrollPace::Slow);
    let commit = state.apply_measurement(1, 1, false, false, true, (0, 0));
    assert_eq!(commit, ScrollFollowCommit::Abandon);
    let session = state.tracker.as_ref().unwrap();
    assert!(!session.running);
    assert!(session.abandoned);
    let baseline = state.wheel_baseline();
    assert!(baseline.recovering_from_abandon);
    let outcome = state.register_wheel(2, ScrollPace::Slow, baseline, (10, 120));
    assert!(outcome.started);
    assert!(!outcome.hide_now);
    assert!(state.tracker.as_ref().unwrap().hidden);
}

#[test]
fn failures_of_an_earlier_wheel_event_do_not_count() {
    let mut state = started_session(ScrollPace::Slow);
    let baseline = state.wheel_baseline();
    state.register_wheel(2, ScrollPace::Slow, baseline, (90, 240));
    state.record_measure_failure(1, 1);
    assert_eq!(state.tracker.as_ref().unwrap().failures, 0);
    state.record_measure_failure(1, 2);
    assert_eq!(state.tracker.as_ref().unwrap().failures, 1);
}

#[test]
fn finishing_checks_the_wheel_count_and_ends_the_session() {
    let mut state = started_session(ScrollPace::Slow);
    assert!(!state.finish(1, Some(5), false));
    assert!(state.tracker.as_ref().unwrap().running);
    assert!(state.finish(1, Some(1), false));
    let session = state.tracker.as_ref().unwrap();
    assert!(!session.running);
    assert!(!session.abandoned);
    assert!(state.needs_restart());
}

#[test]
fn a_failed_show_is_rolled_back() {
    let mut state = started_session(ScrollPace::Fast);
    state.apply_measurement(1, 1, true, true, true, (70, 0));
    assert!(state.tracker.as_ref().unwrap().settled_measurement_stable);
    state.rollback_failed_show(1, true);
    let session = state.tracker.as_ref().unwrap();
    assert!(!session.settled_measurement_stable);
    assert!(session.hidden);
    assert!(state.hidden_since_show(1));
}

#[test]
fn an_unmeasured_frame_invalidates_the_ratio_window() {
    let mut state = started_session(ScrollPace::Slow);
    state.apply_measurement(1, 1, true, true, true, (70, 0));
    assert!(state.tracker.as_ref().unwrap().ratio_burst_valid);
    state.invalidate_ratio_burst(1);
    assert!(!state.tracker.as_ref().unwrap().ratio_burst_valid);
}

#[test]
fn uia_is_sampled_on_every_stride_or_when_settled() {
    assert!(measure_allows_uia(6, 3, false));
    assert!(!measure_allows_uia(7, 3, false));
    assert!(measure_allows_uia(7, 3, true));
}
