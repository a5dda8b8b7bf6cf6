use selection_ai_assistant_lib::selection::controller::{
    SelectionController, SelectionEvent, SelectionStateKind,
};
use selection_ai_assistant_lib::selection::types::{SelectionCandidate, SelectionReadMethod};

#[derive(Debug, Clone, Copy, PartialEq)]
struct Point {
    x: f64,
    y: f64,
}

#[derive(Debug, Clone, Copy, PartialEq)]
struct Rect {
    x: f64,
    y: f64,
    width: f64,
    height: f64,
}

fn candidate() -> SelectionCandidate<Rect, Point> {
    SelectionCandidate {
        id: "candidate-1".to_string(),
        text: "hello world".to_string(),
        source_app: "chrome.exe".to_string(),
        window_title: "Example".to_string(),
        anchor_rect: Some(Rect {
            x: 100.0,
            y: 100.0,
            width: 200.0,
            height: 40.0,
        }),
        fallback_point: Point { x: 120.0, y: 120.0 },
        read_method: SelectionReadMethod::UiAutomation,
        selection_rects: Vec::new(),
        explicit_anchor: None,
        anchor_source: None,
    }
}

#[test]
fn arms_candidate_after_read_success() {
    let mut controller = SelectionController::new();
    controller.handle(SelectionEvent::ReadSuccess(candidate()));
    assert_eq!(controller.state_kind(), SelectionStateKind::SelectionArmed);
}

#[test]
fn shows_button_when_mouse_is_near_anchor() {
    let mut controller = SelectionController::new();
    controller.handle(SelectionEvent::ReadSuccess(candidate()));
    controller.handle(SelectionEvent::MouseHoverSatisfied(Point {
        x: 200.0,
        y: 120.0,
    }));
    assert_eq!(controller.state_kind(), SelectionStateKind::ButtonVisible);
}

#[test]
fn escape_returns_to_idle() {
    let mut controller = SelectionController::new();
    controller.handle(SelectionEvent::ReadSuccess(candidate()));
    controller.handle(SelectionEvent::EscapePressed);
    assert_eq!(controller.state_kind(), SelectionStateKind::Idle);
}

#[test]
fn creates_clipboard_candidate_with_generated_id() {
    let candidate: SelectionCandidate<Rect, Point> = SelectionCandidate::from_clipboard_text(
        "selected text".to_string(),
        "code.exe".to_string(),
        "Editor".to_string(),
        Point { x: 10.0, y: 20.0 },
    );

    assert!(!candidate.id.is_empty());
    assert_eq!(candidate.text, "selected text");
    assert_eq!(candidate.read_method, SelectionReadMethod::Clipboard);
    assert_eq!(candidate.anchor_rect, None);
}

#[test]
fn hover_and_click_without_candidate_change_nothing() {
    let mut controller: SelectionController<Rect, Point> = SelectionController::new();
    controller.handle(SelectionEvent::StartProbing);
    controller.handle(SelectionEvent::MouseHoverSatisfied(Point { x: 1.0, y: 1.0 }));
    assert_eq!(controller.state_kind(), SelectionStateKind::SelectionProbing);
    controller.handle(SelectionEvent::ClickButton);
    assert_eq!(controller.state_kind(), SelectionStateKind::SelectionProbing);
    assert!(controller.candidate().is_none());
}

#[test]
fn click_opens_panel_and_close_forgets_candidate() {
    let mut controller = SelectionController::new();
    controller.handle(SelectionEvent::ReadSuccess(candidate()));
    controller.handle(SelectionEvent::ClickButton);
    assert_eq!(controller.state_kind(), SelectionStateKind::PanelOpen);
    assert_eq!(controller.candidate().map(|c| c.text.as_str()), Some("hello world"));
    controller.handle(SelectionEvent::ClosePanel);
    assert_eq!(controller.state_kind(), SelectionStateKind::Idle);
    assert!(controller.candidate().is_none());
}
