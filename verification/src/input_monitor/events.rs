//! The decisions of the input monitor that do not depend on screen geometry:
//! the manual hotkey, scroll following, and what a mouse release does to a
//! pending selection. Points and rectangles are type parameters; the desktop
//! shell measures them.
use vstd::prelude::*;

use crate::text::{lower, spec_ascii_upper, spec_is_ascii_alphabetic, trim, eq_ignore_case};

verus! {

/// What the monitor reports; `P` is a screen point.
#[derive(Debug, Clone, PartialEq)]
pub enum InputEvent<P> {
    DragEnded { down: P, up: P },
    MouseMoved { position: P },
    HotkeyPressed,
    EscapePressed,
    ForegroundWindowChanged,
}

/// Which keys of the manual hotkey are down.
#[derive(Debug, Clone, Copy, PartialEq, Default)]
pub struct HotkeyKeyState {
    pub ctrl: bool,
    pub alt: bool,
    pub a: bool,
}

impl HotkeyKeyState {
    pub open spec fn chord_down(&self) -> bool {
        self.ctrl && self.alt && self.a
    }

    pub open spec fn release_ready(&self) -> bool {
        !self.ctrl && !self.alt && !self.a
    }

    fn is_chord_down(&self) -> (r: bool)
        ensures
            r == self.chord_down(),
    {
        self.ctrl && self.alt && self.a
    }

    fn is_release_ready(&self) -> (r: bool)
        ensures
            r == self.release_ready(),
    {
        !self.ctrl && !self.alt && !self.a
    }
}

/// `s` cut at every `c`, as `str::split` does: one more piece than there
/// are separators.
pub open spec fn split_char(s: Seq<char>, c: char) -> Seq<Seq<char>>
    decreases s.len(),
{
    if s.len() == 0 {
        seq![seq![]]
    } else {
        let rest = split_char(s.drop_last(), c);
        if s.last() == c {
            rest.push(seq![])
        } else {
            rest.update(rest.len() - 1, rest.last().push(s.last()))
        }
    }
}

pub proof fn lemma_split_char_nonempty(s: Seq<char>, c: char)
    ensures
        split_char(s, c).len() >= 1,
    decreases s.len(),
{
    if s.len() > 0 {
        lemma_split_char_nonempty(s.drop_last(), c);
    }
}

/// What a hotkey part contributes: Ctrl, Alt, or a letter key (a single
/// ASCII character, upper-cased, that is a letter).
pub open spec fn hotkey_scan(parts: Seq<Seq<char>>) -> (bool, bool, Option<char>)
    decreases parts.len(),
{
    if parts.len() == 0 {
        (false, false, None)
    } else {
        let (ctrl, alt, key) = hotkey_scan(parts.drop_last());
        let p = trim(parts.last());
        if eq_ignore_case(p, "ctrl"@) || eq_ignore_case(p, "control"@) {
            (true, alt, key)
        } else if eq_ignore_case(p, "alt"@) {
            (ctrl, true, key)
        } else if p.len() == 1 && (p[0] as u32) < 128 && spec_is_ascii_alphabetic(
            spec_ascii_upper(p[0]),
        ) {
            (ctrl, alt, Some(spec_ascii_upper(p[0])))
        } else {
            (ctrl, alt, key)
        }
    }
}

/// The letter of a `Ctrl+Alt+<letter>` hotkey: parts are split on `+` and
/// trimmed, Ctrl (or Control) and Alt must both occur, ignoring ASCII case,
/// and the last single-letter part is the key.
pub open spec fn spec_manual_hotkey_trigger_key(hotkey: Seq<char>) -> Option<char> {
    let (ctrl, alt, key) = hotkey_scan(split_char(hotkey, '+'));
    if ctrl && alt {
        key
    } else {
        None
    }
}

fn scan_part(part: &[char], state: (bool, bool, Option<char>)) -> (r: (bool, bool, Option<char>))
    ensures
        r == ({
            let (ctrl, alt, key) = state;
            let p = trim(part@);
            if eq_ignore_case(p, "ctrl"@) || eq_ignore_case(p, "control"@) {
                (true, alt, key)
            } else if eq_ignore_case(p, "alt"@) {
                (ctrl, true, key)
            } else if p.len() == 1 && (p[0] as u32) < 128 && spec_is_ascii_alphabetic(
                spec_ascii_upper(p[0]),
            ) {
                (ctrl, alt, Some(spec_ascii_upper(p[0])))
            } else {
                (ctrl, alt, key)
            }
        }),
{
    let (ctrl, alt, key) = state;
    let p = crate::text::trim_chars(part);
    let ctrl_word = crate::text::chars_of("ctrl");
    let control_word = crate::text::chars_of("control");
    let alt_word = crate::text::chars_of("alt");
    if crate::text::eq_ignore_ascii_case_chars(&p, &ctrl_word)
        || crate::text::eq_ignore_ascii_case_chars(&p, &control_word) {
        (true, alt, key)
    } else if crate::text::eq_ignore_ascii_case_chars(&p, &alt_word) {
        (ctrl, true, key)
    } else if p.len() == 1 && (p[0] as u32) < 128 {
        let upper = crate::text::ascii_upper(p[0]);
        if ('A' <= upper && upper <= 'Z') || ('a' <= upper && upper <= 'z') {
            (ctrl, alt, Some(upper))
        } else {
            (ctrl, alt, key)
        }
    } else {
        (ctrl, alt, key)
    }
}

/// The letter key of a manual `Ctrl+Alt+<letter>` hotkey, upper-cased (see
/// `spec_manual_hotkey_trigger_key`).
pub fn manual_hotkey_trigger_key(hotkey: &str) -> (r: Option<char>)
    ensures
        r == spec_manual_hotkey_trigger_key(hotkey@),
{
    let chars = crate::text::chars_of(hotkey);
    let mut state: (bool, bool, Option<char>) = (false, false, None);
    let mut part: Vec<char> = Vec::new();
    let mut i: usize = 0;
    assert(chars@.subrange(0, 0) =~= Seq::<char>::empty());
    while i < chars.len()
        invariant
            i <= chars@.len(),
            ({
                let parts = split_char(chars@.subrange(0, i as int), '+');
                &&& parts.len() >= 1
                &&& state == hotkey_scan(parts.drop_last())
                &&& part@ == parts.last()
            }),
        decreases chars.len() - i,
    {
        let ghost pre = chars@.subrange(0, i as int);
        let ghost parts = split_char(pre, '+');
        assert(chars@.subrange(0, i + 1).drop_last() =~= pre);
        assert(chars@.subrange(0, i + 1).last() == chars@[i as int]);
        proof {
            lemma_split_char_nonempty(pre, '+');
        }
        if chars[i] == '+' {
            state = scan_part(&part, state);
            part = Vec::new();
            proof {
                let next = parts.push(seq![]);
                assert(next.drop_last() =~= parts);
                assert(parts =~= parts.drop_last().push(parts.last()));
            }
        } else {
            part.push(chars[i]);
            proof {
                let next = parts.update(parts.len() - 1, parts.last().push(chars@[i as int]));
                assert(next.drop_last() =~= parts.drop_last());
            }
        }
        i = i + 1;
    }
    assert(chars@.subrange(0, chars@.len() as int) =~= chars@);
    proof {
        let parts = split_char(chars@, '+');
        assert(parts =~= parts.drop_last().push(parts.last()));
    }
    let (ctrl, alt, key) = scan_part(&part, state);
    if ctrl && alt {
        key
    } else {
        None
    }
}

/// Whether the manual hotkey was pressed and waits for its release, and
/// which of its keys are down.
#[derive(Debug, Clone, Copy, PartialEq)]
pub struct PendingHotkeyAction {
    armed: bool,
    keys: HotkeyKeyState,
}

impl Default for PendingHotkeyAction {
    /// A hotkey machine that has seen no key: unarmed, every key up.
    fn default() -> (r: Self)
        ensures
            !r.armed_spec(),
            r.keys_spec() == (HotkeyKeyState { ctrl: false, alt: false, a: false }),
    {
        PendingHotkeyAction { armed: false, keys: HotkeyKeyState { ctrl: false, alt: false, a: false } }
    }
}

impl PendingHotkeyAction {
    pub closed spec fn armed_spec(&self) -> bool {
        self.armed
    }

    pub closed spec fn keys_spec(&self) -> HotkeyKeyState {
        self.keys
    }

    pub fn is_armed(&self) -> (r: bool)
        ensures
            r == self.armed_spec(),
    {
        self.armed
    }
}

#[derive(Debug, Clone, Copy, PartialEq, Eq, Structural)]
pub enum HotkeyAction {
    Idle,
    Armed,
    AlreadyArmed,
    CaptureAndOpen,
}

/// The manual hotkey as a machine: the full chord arms it, releasing every
/// key fires it once; `(armed after, action)`.
pub open spec fn hotkey_step(armed: bool, keys: HotkeyKeyState) -> (bool, HotkeyAction) {
    if keys.chord_down() {
        if armed {
            (true, HotkeyAction::AlreadyArmed)
        } else {
            (true, HotkeyAction::Armed)
        }
    } else if armed {
        if keys.release_ready() {
            (false, HotkeyAction::CaptureAndOpen)
        } else {
            (true, HotkeyAction::AlreadyArmed)
        }
    } else {
        (false, HotkeyAction::Idle)
    }
}

/// Feeds the current key state to the hotkey machine (see `hotkey_step`).
pub fn handle_hotkey_state(pending_hotkey: &mut PendingHotkeyAction, keys: HotkeyKeyState) -> (r:
    HotkeyAction)
    ensures
        final(pending_hotkey).keys_spec() == keys,
        (final(pending_hotkey).armed_spec(), r) == hotkey_step(old(pending_hotkey).armed_spec(), keys),
{
    pending_hotkey.keys = keys;
    if keys.is_chord_down() {
        if pending_hotkey.armed {
            HotkeyAction::AlreadyArmed
        } else {
            pending_hotkey.armed = true;
            HotkeyAction::Armed
        }
    } else if pending_hotkey.armed {
        if keys.is_release_ready() {
            pending_hotkey.armed = false;
            HotkeyAction::CaptureAndOpen
        } else {
            HotkeyAction::AlreadyArmed
        }
    } else {
        HotkeyAction::Idle
    }
}

/// The hotkey fires only when it was armed, disarms when it fires, and so
/// never fires twice in a row: a second firing needs the chord pressed
/// again.
pub proof fn lemma_hotkey_fires_once(armed: bool, first: HotkeyKeyState, second: HotkeyKeyState)
    ensures
        hotkey_step(armed, first).1 == HotkeyAction::CaptureAndOpen ==> armed && !hotkey_step(
            armed,
            first,
        ).0,
        hotkey_step(armed, first).1 == HotkeyAction::CaptureAndOpen ==> hotkey_step(
            hotkey_step(armed, first).0,
            second,
        ).1 != HotkeyAction::CaptureAndOpen,
        hotkey_step(armed, first).1 == HotkeyAction::Armed ==> !armed && hotkey_step(armed, first).0,
{
}

/// What a mouse release means for the selection; `P` is a screen point.
#[derive(Debug, Clone, Copy, PartialEq)]
pub enum MouseUpAction<P> {
    ArmSelection { anchor: P, toolbar_anchor: P },
    ClearSelection,
    PreserveSelection,
}

/// A selection waiting for the pointer to come near it.
#[derive(Debug, Clone, Copy, PartialEq)]
pub struct PendingSelection<P> {
    pub anchor: P,
    pub toolbar_anchor: P,
    pub hover_started_at_ms: Option<u64>,
}

/// The floating button on screen; `R` is a screen rectangle.
#[derive(Debug, Clone, Copy, PartialEq)]
pub struct VisibleFloatingButton<P, R> {
    pub window_position: P,
    pub selection_anchor: P,
    pub selection_rect: Option<R>,
    pub scroll_follow_enabled: bool,
}

#[derive(Debug, Clone, Copy, PartialEq)]
pub enum VisibleFloatingButtonAction<P> {
    NoVisibleButton,
    KeepVisible,
    HideAndRearmSelection { anchor: P },
}

#[derive(Debug, Clone, Copy, PartialEq)]
pub enum PendingSelectionHoverAction<P> {
    NoPendingSelection,
    KeepPending,
    CaptureAndShowButton { anchor: P },
}

#[derive(Debug, Clone, Copy, PartialEq, Eq, Structural)]
pub enum SelectionMouseUpEffect {
    ShowButtonAndClearPending,
    ClearSelectionAndHide,
    PreserveSelection,
}

/// Drops the pending selection.
pub fn consume_pending_selection<P>(pending_selection: &mut Option<PendingSelection<P>>)
    ensures
        *final(pending_selection) is None,
{
    *pending_selection = None;
}

/// A drag shows the button at once and a click elsewhere clears the
/// selection, both dropping the pending selection; a click on the
/// assistant's own windows keeps everything.
pub fn apply_mouse_up_action_to_pending_selection<P>(
    pending_selection: &mut Option<PendingSelection<P>>,
    action: MouseUpAction<P>,
) -> (r: SelectionMouseUpEffect)
    ensures
        match action {
            MouseUpAction::ArmSelection { .. } => r == SelectionMouseUpEffect::ShowButtonAndClearPending
                && (*final(pending_selection) is None),
            MouseUpAction::ClearSelection => r == SelectionMouseUpEffect::ClearSelectionAndHide
                && (*final(pending_selection) is None),
            MouseUpAction::PreserveSelection => r == SelectionMouseUpEffect::PreserveSelection
                && *final(pending_selection) == *old(pending_selection),
        },
{
    match action {
        MouseUpAction::ArmSelection { .. } => {
            *pending_selection = None;
            SelectionMouseUpEffect::ShowButtonAndClearPending
        },
        MouseUpAction::ClearSelection => {
            *pending_selection = None;
            SelectionMouseUpEffect::ClearSelectionAndHide
        },
        MouseUpAction::PreserveSelection => SelectionMouseUpEffect::PreserveSelection,
    }
}

/// The browsers, by process name in lower case.
pub open spec fn browser_process_names() -> Seq<Seq<char>> {
    seq![
        "chrome.exe"@,
        "chromium.exe"@,
        "msedge.exe"@,
        "firefox.exe"@,
        "brave.exe"@,
        "vivaldi.exe"@,
        "opera.exe"@,
        "opera_gx.exe"@,
        "iexplore.exe"@,
    ]
}

/// The part of a path after its last `\` or `/`.
pub open spec fn last_path_segment(s: Seq<char>) -> Seq<char>
    decreases s.len(),
{
    if s.len() == 0 {
        s
    } else if s.last() == '\\' || s.last() == '/' {
        seq![]
    } else {
        last_path_segment(s.drop_last()).push(s.last())
    }
}

/// The source is a browser: the file name of the process, trimmed and in
/// lower case, is one of `browser_process_names`.
pub open spec fn spec_is_browser_process(source_app: Seq<char>) -> bool {
    browser_process_names().contains(lower(trim(last_path_segment(source_app))))
}

fn is_browser_process(source_app: &str) -> (r: bool)
    ensures
        r == spec_is_browser_process(source_app@),
{
    let chars = crate::text::chars_of(source_app);
    let mut start: usize = chars.len();
    assert(chars@.subrange(0, chars@.len() as int) =~= chars@);
    assert(last_path_segment(chars@) + chars@.subrange(chars@.len() as int, chars@.len() as int)
        =~= last_path_segment(chars@));
    while start > 0 && chars[start - 1] != '\\' && chars[start - 1] != '/'
        invariant
            start <= chars@.len(),
            last_path_segment(chars@) == last_path_segment(chars@.subrange(0, start as int))
                + chars@.subrange(start as int, chars@.len() as int),
        decreases start,
    {
        let ghost pre = chars@.subrange(0, start as int);
        assert(pre.drop_last() =~= chars@.subrange(0, start - 1));
        assert(pre.last() == chars@[start - 1]);
        assert(last_path_segment(chars@.subrange(0, start - 1)).push(chars@[start - 1])
            + chars@.subrange(start as int, chars@.len() as int) =~= last_path_segment(
            chars@.subrange(0, start - 1),
        ) + chars@.subrange(start - 1, chars@.len() as int));
        start = start - 1;
    }
    proof {
        assert(chars@.subrange(0, chars@.len() as int) =~= chars@);
        let pre = chars@.subrange(0, start as int);
        if start > 0 {
            assert(pre.last() == chars@[start - 1]);
        }
        assert(last_path_segment(pre) =~= Seq::<char>::empty());
        assert(Seq::<char>::empty() + chars@.subrange(start as int, chars@.len() as int)
            =~= chars@.subrange(start as int, chars@.len() as int));
    }
    let segment = crate::text::sub_chars(&chars, start, chars.len());
    let name = crate::text::to_lower_chars(&crate::text::trim_chars(&segment));
    let known = [
        "chrome.exe",
        "chromium.exe",
        "msedge.exe",
        "firefox.exe",
        "brave.exe",
        "vivaldi.exe",
        "opera.exe",
        "opera_gx.exe",
        "iexplore.exe",
    ];
    let mut k: usize = 0;
    while k < 9
        invariant
            k <= 9,
            known@ == seq![
                "chrome.exe",
                "chromium.exe",
                "msedge.exe",
                "firefox.exe",
                "brave.exe",
                "vivaldi.exe",
                "opera.exe",
                "opera_gx.exe",
                "iexplore.exe",
            ],
            name@ == lower(trim(last_path_segment(source_app@))),
            forall|j: int| 0 <= j < k ==> browser_process_names()[j] != name@,
        decreases 9 - k,
    {
        let candidate = crate::text::chars_of(known[k]);
        assert(browser_process_names()[k as int] == known@[k as int]@);
        if crate::text::chars_eq(&candidate, &name) {
            assert(browser_process_names()[k as int] == name@);
            return true;
        }
        k = k + 1;
    }
    assert(!browser_process_names().contains(name@)) by {
        if browser_process_names().contains(name@) {
            let j = choose|j: int| 0 <= j < browser_process_names().len() && browser_process_names()[j] == name@;
            assert(browser_process_names()[j] != name@);
        }
    }
    false
}

/// The floating button follows scrolling except in browsers, whose pages
/// scroll under a fixed window.
pub fn should_follow_scroll_for_source(source_app: &str, window_title: &str) -> (r: bool)
    ensures
        r == !spec_is_browser_process(source_app@),
{
    !is_browser_process(source_app)
}

/// How fast the wheel turns.
#[derive(Debug, Clone, Copy, PartialEq, Eq, Structural)]
pub enum ScrollPace {
    Slow,
    Fast,
}

/// After this long without a wheel event the scrolling counts as settled.
pub const SCROLL_SETTLE_IDLE_MS: u64 = 150;

/// After this many failed measurements in a row the button is hidden.
pub const MAX_SCROLL_MEASURE_FAILURES: u32 = 6;

#[derive(Debug, Clone, Copy, PartialEq, Eq, Structural)]
pub enum ScrollTrackerAction {
    /// Fast scrolling: stay hidden, measure nothing.
    WaitHidden,
    /// Measure where the selection is and follow it.
    Measure,
    /// The button snapped to the settled selection; the session ends.
    Finish,
    /// Too many failed measurements: hide rather than guess.
    Abandon,
}

/// A new follow session starts hidden while scrolling fast, after the last
/// one was abandoned, or without any geometry to start from.
pub fn scroll_follow_starts_hidden(
    pace: ScrollPace,
    recovering_from_abandon: bool,
    has_seed_geometry: bool,
) -> (r: bool)
    ensures
        r == (pace == ScrollPace::Fast || recovering_from_abandon || !has_seed_geometry),
{
    pace == ScrollPace::Fast || recovering_from_abandon || !has_seed_geometry
}

/// What the follow thread does next: abandon after too many failures;
/// finish once settled with a stable measurement; wait hidden while fast
/// and unsettled; else measure.
pub fn scroll_tracker_action(
    pace: ScrollPace,
    idle_ms: u64,
    consecutive_failures: u32,
    settled_measurement_stable: bool,
) -> (r: ScrollTrackerAction)
    ensures
        r == if consecutive_failures >= MAX_SCROLL_MEASURE_FAILURES {
            ScrollTrackerAction::Abandon
        } else if idle_ms >= SCROLL_SETTLE_IDLE_MS && settled_measurement_stable {
            ScrollTrackerAction::Finish
        } else if pace == ScrollPace::Fast && idle_ms < SCROLL_SETTLE_IDLE_MS {
            ScrollTrackerAction::WaitHidden
        } else {
            ScrollTrackerAction::Measure
        },
{
    if consecutive_failures >= MAX_SCROLL_MEASURE_FAILURES {
        return ScrollTrackerAction::Abandon;
    }
    let settled = idle_ms >= SCROLL_SETTLE_IDLE_MS;
    if settled && settled_measurement_stable {
        return ScrollTrackerAction::Finish;
    }
    if pace == ScrollPace::Fast && !settled {
        return ScrollTrackerAction::WaitHidden;
    }
    ScrollTrackerAction::Measure
}

} // verus!
