use selection_ai_assistant_lib::ai::action_classifier::AiAction;
use selection_ai_assistant_lib::commands::selection::{
    create_panel_context_for_selection, create_panel_context_for_text,
    panel_context_for_visible_refresh, validate_replacement_selection, validate_replacement_text,
    PanelContext,
};
use selection_ai_assistant_lib::selection::types::{SelectionCandidate, SelectionReadMethod};

#[derive(Debug, Clone, Copy, PartialEq)]
struct Point {
    x: f64,
    y: f64,
}

#[derive(Debug, Clone, Copy, PartialEq)]
struct Rect {
    x: f64,
    y: f64,
    width: f64,
    height: f64,
}

#[test]
fn creates_panel_context_for_valid_manual_text() {
    let context: PanelContext<Rect, Point> =
        create_panel_context_for_text(" hello world ", Point { x: 200.0, y: 200.0 }).unwrap();

    assert_eq!(context.selection.text, "hello world");
    assert_eq!(context.selection.source_app, "manual");
    assert_eq!(context.selection.window_title, "Manual hotkey");
    assert_eq!(
        context.selection.read_method,
        SelectionReadMethod::HotkeyClipboard
    );
    assert_eq!(context.action, AiAction::TranslateExplain);
    assert!(!context.auto_run);
}

#[test]
fn creates_auto_run_context_for_selection_candidate() {
    let selection: SelectionCandidate<Rect, Point> = SelectionCandidate::from_clipboard_text(
        "selected text".to_string(),
        "unknown".to_string(),
        "Unknown window".to_string(),
        Point { x: 10.0, y: 20.0 },
    );

    let context = create_panel_context_for_selection(selection.clone(), true).unwrap();

    assert_eq!(context.selection, selection);
    assert_eq!(context.action, AiAction::TranslateExplain);
    assert!(context.auto_run);
}

#[test]
fn visible_panel_refresh_never_preserves_auto_run() {
    let selection: SelectionCandidate<Rect, Point> = SelectionCandidate::from_clipboard_text(
        "selected text".to_string(),
        "unknown".to_string(),
        "Unknown window".to_string(),
        Point { x: 10.0, y: 20.0 },
    );
    let context = create_panel_context_for_selection(selection, true).unwrap();

    let refreshed = panel_context_for_visible_refresh(&context);

    assert!(!refreshed.auto_run);
    assert_eq!(refreshed.selection.text, "selected text");
    assert_eq!(refreshed.action, context.action);
}

#[test]
fn replacement_selection_validation_rejects_stale_selection_id() {
    let selection: SelectionCandidate<Rect, Point> = SelectionCandidate::from_clipboard_text(
        "selected text".to_string(),
        "unknown".to_string(),
        "Unknown window".to_string(),
        Point { x: 10.0, y: 20.0 },
    );
    let context = create_panel_context_for_selection(selection, false).unwrap();
    let current_id = context.selection.id.clone();

    assert!(validate_replacement_selection(Some(&context), Some(&current_id)).is_ok());
    let err = validate_replacement_selection(Some(&context), Some("old-selection")).unwrap_err();

    assert_eq!(err.code, "selection_context_changed");
}

#[test]
fn rejects_panel_context_for_tiny_text() {
    let err = create_panel_context_for_text::<Rect, Point>(" a ", Point { x: 200.0, y: 200.0 })
        .unwrap_err();

    assert_eq!(err.code, "selection_text_too_short");
}

#[test]
fn replacement_selection_without_id_or_context_is_checked_as_documented() {
    assert!(validate_replacement_selection::<Rect, Point>(None, None).is_ok());
    assert!(validate_replacement_selection::<Rect, Point>(None, Some("  ")).is_ok());
    let err = validate_replacement_selection::<Rect, Point>(None, Some("abc")).unwrap_err();
    assert_eq!(err.code, "selection_context_missing");
}

#[test]
fn validate_replacement_text_rejects_empty_text() {
    let err = validate_replacement_text("   ").expect_err("empty replacement should fail");
    assert_eq!(err.code, "replacement_text_required");
    assert_eq!(validate_replacement_text(" keep ").unwrap(), " keep ");
}
