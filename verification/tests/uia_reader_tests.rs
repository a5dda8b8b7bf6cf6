use selection_ai_assistant_lib::selection::types::{
    SelectionAnchorSource, SelectionCandidate, SelectionReadMethod,
};
use selection_ai_assistant_lib::selection::uia_reader::{SelectionConfidence, UiaSelectionResult};

#[derive(Debug, Clone, Copy, PartialEq)]
struct Rect {
    x: f64,
    y: f64,
    width: f64,
    height: f64,
}

/// Whether the rectangles of a read give an anchor point: some rectangle
/// has an area.
fn has_anchor(result: &Option<UiaSelectionResult<Rect>>) -> bool {
    result.as_ref().map_or(false, |r| {
        r.rects.iter().any(|rect| rect.width > 0.0 && rect.height > 0.0)
    })
}

fn prefer_focused(
    focused: Option<UiaSelectionResult<Rect>>,
    window: Option<UiaSelectionResult<Rect>>,
) -> Option<UiaSelectionResult<Rect>> {
    let focused_has_anchor = has_anchor(&focused);
    let window_has_anchor = has_anchor(&window);
    UiaSelectionResult::prefer_focused_attempt(focused, focused_has_anchor, window, window_has_anchor)
}

fn result(text: &str, x: f64) -> UiaSelectionResult<Rect> {
    UiaSelectionResult {
        text: Some(text.to_string()),
        rects: vec![Rect {
            x,
            y: 0.0,
            width: 10.0,
            height: 10.0,
        }],
        is_password_control: false,
        confidence: SelectionConfidence::High,
    }
}

#[test]
fn focused_element_selection_is_preferred_over_window_selection() {
    let focused = result("focused child", 10.0);
    let window = result("top level", 100.0);

    let selected =
        prefer_focused(Some(focused), Some(window)).expect("selection");

    assert_eq!(selected.text.as_deref(), Some("focused child"));
    assert_eq!(selected.rects[0].x, 10.0);
}

#[test]
fn window_geometry_is_used_when_focused_selection_has_no_valid_rects() {
    let focused: UiaSelectionResult<Rect> = UiaSelectionResult {
        text: Some("focused child".to_string()),
        rects: Vec::new(),
        is_password_control: false,
        confidence: SelectionConfidence::High,
    };
    let window = result("top level", 100.0);

    let selected =
        prefer_focused(Some(focused), Some(window)).expect("selection");

    assert_eq!(selected.text.as_deref(), Some("top level"));
    assert_eq!(selected.rects[0].x, 100.0);
}

#[test]
fn focused_password_control_blocks_window_geometry_and_drag_fallback() {
    let focused_password: UiaSelectionResult<Rect> = UiaSelectionResult {
        text: None,
        rects: Vec::new(),
        is_password_control: true,
        confidence: SelectionConfidence::Low,
    };
    let window = result("top level", 100.0);

    let selected = prefer_focused(Some(focused_password), Some(window))
        .expect("password result");

    assert!(selected.is_password_control);
    assert!(!has_anchor(&Some(selected)));
}

#[test]
fn window_selection_is_used_when_focused_element_has_no_selection() {
    let window = result("top level", 100.0);

    let selected =
        prefer_focused(None, Some(window)).expect("selection");

    assert_eq!(selected.text.as_deref(), Some("top level"));
    assert_eq!(selected.rects[0].x, 100.0);
}

#[test]
fn focused_password_control_blocks_window_fallback() {
    let focused_password: UiaSelectionResult<Rect> = UiaSelectionResult {
        text: None,
        rects: Vec::new(),
        is_password_control: true,
        confidence: SelectionConfidence::Low,
    };
    let window = result("top level", 100.0);

    let selected = prefer_focused(Some(focused_password), Some(window))
        .expect("password result");

    assert!(selected.is_password_control);
    assert_eq!(selected.text, None);
    assert!(selected.rects.is_empty());
}

#[test]
fn password_control_result_is_not_usable() {
    let result: UiaSelectionResult<Rect> = UiaSelectionResult {
        text: Some("secret".to_string()),
        rects: vec![Rect {
            x: 0.0,
            y: 0.0,
            width: 10.0,
            height: 10.0,
        }],
        is_password_control: true,
        confidence: SelectionConfidence::High,
    };

    assert!(!result.is_usable());
}

#[test]
fn empty_text_result_is_not_usable() {
    let result: UiaSelectionResult<Rect> = UiaSelectionResult {
        text: Some("  ".to_string()),
        rects: Vec::new(),
        is_password_control: false,
        confidence: SelectionConfidence::High,
    };

    assert!(!result.is_usable());
}

#[test]
fn non_password_text_result_is_usable() {
    let result: UiaSelectionResult<Rect> = UiaSelectionResult {
        text: Some("hello".to_string()),
        rects: Vec::new(),
        is_password_control: false,
        confidence: SelectionConfidence::Medium,
    };

    assert!(result.is_usable());
}

#[test]
fn primary_rect_returns_first_rect() {
    let rect = Rect {
        x: 1.0,
        y: 2.0,
        width: 3.0,
        height: 4.0,
    };
    let result: UiaSelectionResult<Rect> = UiaSelectionResult {
        text: Some("hello".to_string()),
        rects: vec![rect],
        is_password_control: false,
        confidence: SelectionConfidence::Medium,
    };

    assert_eq!(result.primary_rect(), Some(rect));
}

#[test]
fn uia_candidate_keeps_trimmed_text_and_rects() {
    let candidate: SelectionCandidate<Rect, (f64, f64)> = SelectionCandidate::from_uia_result(
        result("  hello world \n", 4.0),
        Some((9.0, 3.0)),
        "notepad.exe".to_string(),
        "Untitled".to_string(),
        (1.0, 2.0),
    )
    .expect("a usable read becomes a candidate");
    assert_eq!(candidate.text, "hello world");
    assert_eq!(candidate.id.len(), 36);
    assert_eq!(candidate.read_method, SelectionReadMethod::UiAutomation);
    assert_eq!(candidate.selection_rects.len(), 1);
    assert_eq!(candidate.selection_rects[0].x, 4.0);
    assert_eq!(candidate.explicit_anchor, Some((9.0, 3.0)));
    assert_eq!(candidate.fallback_point, (1.0, 2.0));
    assert_eq!(candidate.anchor_source, Some(SelectionAnchorSource::UiAutomationRects));
}

#[test]
fn uia_candidate_refuses_password_fields_and_blank_text() {
    let mut password = result("secret", 0.0);
    password.is_password_control = true;
    let none: Option<SelectionCandidate<Rect, (f64, f64)>> = SelectionCandidate::from_uia_result(
        password,
        None,
        String::new(),
        String::new(),
        (0.0, 0.0),
    );
    assert!(none.is_none());
    let blank: Option<SelectionCandidate<Rect, (f64, f64)>> = SelectionCandidate::from_uia_result(
        result("   ", 0.0),
        None,
        String::new(),
        String::new(),
        (0.0, 0.0),
    );
    assert!(blank.is_none());
}
