use selection_ai_assistant_lib::input_monitor::events::{
    apply_mouse_up_action_to_pending_selection, consume_pending_selection, handle_hotkey_state,
    manual_hotkey_trigger_key, scroll_follow_starts_hidden, scroll_tracker_action,
    should_follow_scroll_for_source, HotkeyAction, HotkeyKeyState, MouseUpAction,
    PendingHotkeyAction, PendingSelection, ScrollPace, ScrollTrackerAction,
    SelectionMouseUpEffect, MAX_SCROLL_MEASURE_FAILURES, SCROLL_SETTLE_IDLE_MS,
};

#[derive(Debug, Clone, Copy, PartialEq)]
struct Point {
    x: f64,
    y: f64,
}

#[test]
fn applying_drag_mouse_up_clears_pending_anchor_and_requests_immediate_show() {
    let mut pending_selection = None;

    let effect = apply_mouse_up_action_to_pending_selection(
        &mut pending_selection,
        MouseUpAction::ArmSelection {
            anchor: Point { x: 5.0, y: 0.0 },
            toolbar_anchor: Point { x: 5.0, y: 0.0 },
        },
    );

    assert_eq!(pending_selection, None);
    assert_eq!(effect, SelectionMouseUpEffect::ShowButtonAndClearPending);
}

#[test]
fn applying_drag_mouse_up_clears_old_pending_anchor_for_immediate_show() {
    let mut pending_selection = Some(PendingSelection {
        anchor: Point { x: 100.0, y: 100.0 },
        toolbar_anchor: Point { x: 100.0, y: 100.0 },
        hover_started_at_ms: None,
    });

    let effect = apply_mouse_up_action_to_pending_selection(
        &mut pending_selection,
        MouseUpAction::ArmSelection {
            anchor: Point { x: 5.0, y: 0.0 },
            toolbar_anchor: Point { x: 5.0, y: 0.0 },
        },
    );

    assert_eq!(pending_selection, None);
    assert_eq!(effect, SelectionMouseUpEffect::ShowButtonAndClearPending);
}

#[test]
fn hotkey_pending_selection_can_be_consumed_before_opening_panel() {
    let mut pending_selection = Some(PendingSelection {
        anchor: Point { x: 100.0, y: 100.0 },
        toolbar_anchor: Point { x: 100.0, y: 100.0 },
        hover_started_at_ms: None,
    });

    assert_eq!(
        pending_selection,
        Some(PendingSelection {
            anchor: Point { x: 100.0, y: 100.0 },
            toolbar_anchor: Point { x: 100.0, y: 100.0 },
            hover_started_at_ms: None,
        })
    );
    consume_pending_selection(&mut pending_selection);
    assert_eq!(pending_selection, None);
}

#[test]
fn parses_manual_ctrl_alt_letter_hotkey_from_config() {
    assert_eq!(manual_hotkey_trigger_key("Ctrl+Alt+T"), Some('T'));
    assert_eq!(manual_hotkey_trigger_key("ctrl + alt + k"), Some('K'));
    assert_eq!(manual_hotkey_trigger_key("Ctrl+Shift+T"), None);
    assert_eq!(manual_hotkey_trigger_key("Ctrl+Alt+Enter"), None);
}

#[test]
fn all_hotkey_keys_down_arms_pending_explicit_action_without_capture() {
    let mut pending_hotkey = PendingHotkeyAction::default();

    assert_eq!(
        handle_hotkey_state(
            &mut pending_hotkey,
            HotkeyKeyState {
                ctrl: true,
                alt: true,
                a: true,
            },
        ),
        HotkeyAction::Armed
    );
    assert!(pending_hotkey.is_armed());
}

#[test]
fn releasing_a_while_ctrl_alt_remain_down_does_not_capture_or_disarm() {
    let mut pending_hotkey = PendingHotkeyAction::default();

    assert_eq!(
        handle_hotkey_state(
            &mut pending_hotkey,
            HotkeyKeyState {
                ctrl: true,
                alt: true,
                a: true,
            },
        ),
        HotkeyAction::Armed
    );
    assert_eq!(
        handle_hotkey_state(
            &mut pending_hotkey,
            HotkeyKeyState {
                ctrl: true,
                alt: true,
                a: false,
            },
        ),
        HotkeyAction::AlreadyArmed
    );
    assert!(pending_hotkey.is_armed());
}

#[test]
fn ctrl_alt_released_while_a_remains_down_keeps_hotkey_armed_until_full_release() {
    let mut pending_hotkey = PendingHotkeyAction::default();

    assert_eq!(
        handle_hotkey_state(
            &mut pending_hotkey,
            HotkeyKeyState {
                ctrl: true,
                alt: true,
                a: true,
            },
        ),
        HotkeyAction::Armed
    );
    assert_eq!(
        handle_hotkey_state(
            &mut pending_hotkey,
            HotkeyKeyState {
                ctrl: false,
                alt: false,
                a: true,
            },
        ),
        HotkeyAction::AlreadyArmed
    );
    assert!(pending_hotkey.is_armed());
    assert_eq!(
        handle_hotkey_state(
            &mut pending_hotkey,
            HotkeyKeyState {
                ctrl: false,
                alt: false,
                a: false,
            },
        ),
        HotkeyAction::CaptureAndOpen
    );
    assert!(!pending_hotkey.is_armed());
}

#[test]
fn all_hotkey_keys_released_captures_once_after_pending_explicit_action() {
    let mut pending_hotkey = PendingHotkeyAction::default();

    assert_eq!(
        handle_hotkey_state(
            &mut pending_hotkey,
            HotkeyKeyState {
                ctrl: true,
                alt: true,
                a: true,
            },
        ),
        HotkeyAction::Armed
    );
    assert_eq!(
        handle_hotkey_state(
            &mut pending_hotkey,
            HotkeyKeyState {
                ctrl: false,
                alt: false,
                a: false,
            },
        ),
        HotkeyAction::CaptureAndOpen
    );
    assert!(!pending_hotkey.is_armed());
}

#[test]
fn repeated_hotkey_release_does_not_capture_twice() {
    let mut pending_hotkey = PendingHotkeyAction::default();

    assert_eq!(
        handle_hotkey_state(
            &mut pending_hotkey,
            HotkeyKeyState {
                ctrl: true,
                alt: true,
                a: true,
            },
        ),
        HotkeyAction::Armed
    );
    assert_eq!(
        handle_hotkey_state(
            &mut pending_hotkey,
            HotkeyKeyState {
                ctrl: false,
                alt: false,
                a: false,
            },
        ),
        HotkeyAction::CaptureAndOpen
    );
    assert_eq!(
        handle_hotkey_state(
            &mut pending_hotkey,
            HotkeyKeyState {
                ctrl: false,
                alt: false,
                a: false,
            },
        ),
        HotkeyAction::Idle
    );
}

#[test]
fn browser_source_disables_scroll_follow_for_fixed_desktop_compromise() {
    assert!(!should_follow_scroll_for_source(
        "chrome.exe",
        "Docs - Google Chrome"
    ));
    assert!(!should_follow_scroll_for_source(
        "msedge.exe",
        "Microsoft Edge"
    ));
    assert!(!should_follow_scroll_for_source(
        "firefox.exe",
        "Mozilla Firefox"
    ));
}

#[test]
fn non_browser_source_keeps_scroll_follow_enabled() {
    assert!(should_follow_scroll_for_source(
        "notepad.exe",
        "note.txt - Notepad"
    ));
    assert!(should_follow_scroll_for_source(
        "WINWORD.EXE",
        "Document1 - Word"
    ));
}

#[test]
fn slow_scroll_keeps_measuring() {
    assert_eq!(
        scroll_tracker_action(ScrollPace::Slow, 0, 0, false),
        ScrollTrackerAction::Measure
    );
}

#[test]
fn fast_scroll_stays_hidden_until_it_settles() {
    assert_eq!(
        scroll_tracker_action(ScrollPace::Fast, 0, 0, false),
        ScrollTrackerAction::WaitHidden
    );
    // 静止后立刻量一次，用于吸附回真实选区。
    assert_eq!(
        scroll_tracker_action(ScrollPace::Fast, SCROLL_SETTLE_IDLE_MS, 0, false),
        ScrollTrackerAction::Measure
    );
}

#[test]
fn session_finishes_after_settled_measurement() {
    assert_eq!(
        scroll_tracker_action(ScrollPace::Fast, SCROLL_SETTLE_IDLE_MS, 0, true),
        ScrollTrackerAction::Finish
    );
    assert_eq!(
        scroll_tracker_action(ScrollPace::Slow, SCROLL_SETTLE_IDLE_MS, 0, true),
        ScrollTrackerAction::Finish
    );
}

#[test]
fn repeated_measure_failures_abandon_instead_of_guessing() {
    assert_eq!(
        scroll_tracker_action(ScrollPace::Slow, 0, MAX_SCROLL_MEASURE_FAILURES, false),
        ScrollTrackerAction::Abandon
    );
    // 失败判定优先于其它状态。
    assert_eq!(
        scroll_tracker_action(ScrollPace::Fast, 5_000, MAX_SCROLL_MEASURE_FAILURES, true),
        ScrollTrackerAction::Abandon
    );
}

// --- 滚动跟随：选区是否还看得见 ---

#[test]
fn preserve_mouse_up_keeps_the_pending_selection() {
    let pending = Some(PendingSelection {
        anchor: Point { x: 1.0, y: 2.0 },
        toolbar_anchor: Point { x: 3.0, y: 4.0 },
        hover_started_at_ms: Some(7),
    });
    let mut pending_selection = pending;

    let effect = apply_mouse_up_action_to_pending_selection(
        &mut pending_selection,
        MouseUpAction::PreserveSelection,
    );

    assert_eq!(effect, SelectionMouseUpEffect::PreserveSelection);
    assert_eq!(pending_selection, pending);

    let effect = apply_mouse_up_action_to_pending_selection(
        &mut pending_selection,
        MouseUpAction::ClearSelection,
    );
    assert_eq!(effect, SelectionMouseUpEffect::ClearSelectionAndHide);
    assert_eq!(pending_selection, None);
}

#[test]
fn hotkey_parsing_takes_the_last_letter_and_ignores_other_parts() {
    assert_eq!(manual_hotkey_trigger_key("Control+Alt+Shift+q"), Some('Q'));
    assert_eq!(manual_hotkey_trigger_key("Alt+Ctrl+X+Y"), Some('Y'));
    assert_eq!(manual_hotkey_trigger_key("Ctrl+Alt+1"), None);
    assert_eq!(manual_hotkey_trigger_key("Ctrl+Alt+é"), None);
    assert_eq!(manual_hotkey_trigger_key(""), None);
}

#[test]
fn browser_detection_uses_the_file_name_of_a_path() {
    assert!(!should_follow_scroll_for_source(
        "C:\\Program Files\\Google\\Chrome\\chrome.exe",
        ""
    ));
    assert!(!should_follow_scroll_for_source("/usr/bin/ FIREFOX.EXE ", ""));
    assert!(should_follow_scroll_for_source("C:/Tools/chrome.exe.bak", ""));
}

#[test]
fn follow_sessions_start_hidden_without_verified_geometry() {
    assert!(!scroll_follow_starts_hidden(ScrollPace::Slow, false, true));
    assert!(scroll_follow_starts_hidden(ScrollPace::Fast, false, true));
    assert!(scroll_follow_starts_hidden(ScrollPace::Slow, true, true));
    assert!(scroll_follow_starts_hidden(ScrollPace::Slow, false, false));
}
