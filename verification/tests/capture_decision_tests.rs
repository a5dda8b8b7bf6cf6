use selection_ai_assistant_lib::platform::windows::{
    mouse_release_step, selection_read_step, MouseReleaseStep, SelectionReadStep,
};
use selection_ai_assistant_lib::selection::clipboard_reader::{
    restore_plan_step, restore_step, ClipboardFallbackContext, RestorePlanStep, RestoreStep,
};

fn fallback_context() -> ClipboardFallbackContext {
    ClipboardFallbackContext {
        clipboard_fallback_enabled: true,
        process_name: "notepad.exe".to_string(),
        disabled_apps: vec!["KeePass.exe".to_string()],
        is_password_control: false,
        is_elevated_window: false,
        disable_in_elevated_windows: true,
    }
}

#[test]
fn a_fitting_uia_selection_is_used() {
    let step = selection_read_step(true, true, true, false, true, &fallback_context());
    assert_eq!(step, SelectionReadStep::UseUiaSelection);
    let step = selection_read_step(true, false, false, false, true, &fallback_context());
    assert_eq!(step, SelectionReadStep::UseUiaSelection);
}

#[test]
fn a_uia_selection_off_the_gesture_falls_back_to_the_clipboard() {
    let step = selection_read_step(true, false, true, false, true, &fallback_context());
    assert_eq!(step, SelectionReadStep::CopyThroughClipboard);
}

#[test]
fn a_password_field_stops_the_read() {
    let step = selection_read_step(false, false, false, true, true, &fallback_context());
    assert_eq!(step, SelectionReadStep::StopPasswordField);
}

#[test]
fn a_gesture_without_clipboard_stops_the_read() {
    let step = selection_read_step(false, false, false, false, false, &fallback_context());
    assert_eq!(step, SelectionReadStep::StopWithoutClipboard);
}

#[test]
fn a_disabled_application_stops_the_read() {
    let mut context = fallback_context();
    context.process_name = "keepass.EXE".to_string();
    let step = selection_read_step(false, false, false, false, true, &context);
    assert_eq!(step, SelectionReadStep::StopClipboardDisabled);

    let mut context = fallback_context();
    context.is_elevated_window = true;
    let step = selection_read_step(false, false, false, false, true, &context);
    assert_eq!(step, SelectionReadStep::StopClipboardDisabled);
}

#[test]
fn mouse_release_outside_the_assistant() {
    assert_eq!(mouse_release_step(true, false), MouseReleaseStep::CaptureSelection);
    assert_eq!(mouse_release_step(false, false), MouseReleaseStep::ClearSelection);
}

#[test]
fn mouse_release_on_the_assistant_keeps_the_selection() {
    assert_eq!(mouse_release_step(true, true), MouseReleaseStep::KeepSelection);
    assert_eq!(mouse_release_step(false, true), MouseReleaseStep::KeepSelection);
}

#[test]
fn restore_succeeds_before_the_emptying_attempt() {
    assert_eq!(restore_step(0, 3, true), RestoreStep::Finished(true));
    assert_eq!(restore_step(1, 3, true), RestoreStep::Finished(true));
    assert_eq!(restore_step(2, 3, true), RestoreStep::Finished(false));
}

#[test]
fn restore_failures_retry_until_the_last_attempt() {
    assert_eq!(restore_step(0, 3, false), RestoreStep::RetryAfterDelay);
    assert_eq!(restore_step(1, 3, false), RestoreStep::RetryAfterDelay);
    assert_eq!(restore_step(2, 3, false), RestoreStep::Finished(false));
}

#[test]
fn restore_plan_depends_on_the_clipboard_formats() {
    assert_eq!(restore_plan_step(-1, true), RestorePlanStep::NoPlan);
    assert_eq!(restore_plan_step(0, false), RestorePlanStep::Empty);
    assert_eq!(restore_plan_step(3, false), RestorePlanStep::NoPlan);
    assert_eq!(restore_plan_step(3, true), RestorePlanStep::Snapshot(3));
}
