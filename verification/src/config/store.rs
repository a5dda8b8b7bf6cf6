//! The settings of the assistant and their defaults.
use vstd::prelude::*;

use crate::text::eq_ignore_case;

verus! {

#[derive(Debug, Clone, Copy, PartialEq, Eq, Structural)]
pub enum AiProviderKind {
    OpenAiCompatible,
    Anthropic,
    Gemini,
}

impl Default for AiProviderKind {
    fn default() -> (r: Self)
        ensures
            r == AiProviderKind::OpenAiCompatible,
    {
        AiProviderKind::OpenAiCompatible
    }
}

/// One configured AI service. `headers` are extra request headers, in order.
#[derive(Debug, Clone, PartialEq)]
pub struct AiProviderConfig {
    pub id: String,
    pub name: String,
    pub base_url: String,
    pub model: String,
    pub provider_kind: AiProviderKind,
    pub api_key: String,
    pub api_key_ref: String,
    pub headers: Vec<(String, String)>,
}

impl Default for AiProviderConfig {
    fn default() -> (r: Self)
        ensures
            r.id@.len() == 0,
            r.name@.len() == 0,
            r.base_url@.len() == 0,
            r.model@.len() == 0,
            r.provider_kind == AiProviderKind::OpenAiCompatible,
            r.api_key@.len() == 0,
            r.api_key_ref@.len() == 0,
            r.headers@.len() == 0,
    {
        AiProviderConfig {
            id: String::new(),
            name: String::new(),
            base_url: String::new(),
            model: String::new(),
            provider_kind: AiProviderKind::OpenAiCompatible,
            api_key: String::new(),
            api_key_ref: String::new(),
            headers: Vec::new(),
        }
    }
}

#[derive(Debug, Clone, Copy, PartialEq, Eq, Structural)]
pub enum CloseButtonBehavior {
    Ask,
    MinimizeToTray,
    ExitApp,
}

impl Default for CloseButtonBehavior {
    fn default() -> (r: Self)
        ensures
            r == CloseButtonBehavior::Ask,
    {
        CloseButtonBehavior::Ask
    }
}

/// The output target of the replacement and translation actions.
#[derive(Debug, Clone, Copy, PartialEq, Eq, Structural)]
pub enum ReplacementTargetLanguage {
    Auto,
    Korean,
    MorseCode,
    Custom,
}

impl Default for ReplacementTargetLanguage {
    fn default() -> (r: Self)
        ensures
            r == ReplacementTargetLanguage::Auto,
    {
        ReplacementTargetLanguage::Auto
    }
}

/// What the settings window edits of the application's behaviour.
#[derive(Debug, Clone, PartialEq, Eq)]
pub struct AppBehaviorConfig {
    pub hotkey: String,
    pub launch_at_startup: bool,
    pub start_minimized_to_tray: bool,
    pub close_button_behavior: CloseButtonBehavior,
    pub replacement_target_language: ReplacementTargetLanguage,
    pub replacement_custom_target: String,
    pub translation_target_language: ReplacementTargetLanguage,
    pub translation_custom_target: String,
}

/// The persisted settings. The pointer geometry settings (hover radius and
/// minimum drag distance) are kept beside it by the desktop shell.
#[derive(Debug, Clone, PartialEq)]
pub struct AppConfig {
    pub default_provider_id: Option<String>,
    pub providers: Vec<AiProviderConfig>,
    pub hover_delay_ms: u64,
    pub candidate_timeout_ms: u64,
    pub hotkey: String,
    pub clipboard_fallback_enabled: bool,
    pub show_clipboard_privacy_warning_on_first_use: bool,
    pub disable_in_elevated_windows: bool,
    pub manual_hotkey_always_enabled: bool,
    pub launch_at_startup: bool,
    pub start_minimized_to_tray: bool,
    pub close_button_behavior: CloseButtonBehavior,
    pub replacement_target_language: ReplacementTargetLanguage,
    pub replacement_custom_target: String,
    pub translation_target_language: ReplacementTargetLanguage,
    pub translation_custom_target: String,
    pub disabled_apps: Vec<String>,
}

/// The processes for which the assistant stays out of the way by default.
pub open spec fn default_disabled_apps() -> Seq<Seq<char>> {
    seq![
        "1Password.exe"@,
        "KeePassXC.exe"@,
        "Bitwarden.exe"@,
        "mstsc.exe"@,
        "AnyDesk.exe"@,
        "TeamViewer.exe"@,
    ]
}

pub open spec fn string_views(v: Seq<String>) -> Seq<Seq<char>> {
    v.map_values(|s: String| s@)
}

impl Default for AppConfig {
    fn default() -> (r: Self)
        ensures
            r.default_provider_id.is_none(),
            r.providers@.len() == 0,
            r.hover_delay_ms == 1000,
            r.candidate_timeout_ms == 4000,
            r.hotkey@ == "Ctrl+Alt+A"@,
            r.clipboard_fallback_enabled,
            r.show_clipboard_privacy_warning_on_first_use,
            r.disable_in_elevated_windows,
            r.manual_hotkey_always_enabled,
            !r.launch_at_startup,
            !r.start_minimized_to_tray,
            r.close_button_behavior == CloseButtonBehavior::Ask,
            r.replacement_target_language == ReplacementTargetLanguage::Auto,
            r.replacement_custom_target@.len() == 0,
            r.translation_target_language == ReplacementTargetLanguage::Auto,
            r.translation_custom_target@.len() == 0,
            string_views(r.disabled_apps@) == default_disabled_apps(),
    {
        let mut disabled_apps: Vec<String> = Vec::new();
        disabled_apps.push(crate::text::owned("1Password.exe"));
        disabled_apps.push(crate::text::owned("KeePassXC.exe"));
        disabled_apps.push(crate::text::owned("Bitwarden.exe"));
        disabled_apps.push(crate::text::owned("mstsc.exe"));
        disabled_apps.push(crate::text::owned("AnyDesk.exe"));
        disabled_apps.push(crate::text::owned("TeamViewer.exe"));
        assert(string_views(disabled_apps@) =~= default_disabled_apps());
        AppConfig {
            default_provider_id: None,
            providers: Vec::new(),
            hover_delay_ms: 1000,
            candidate_timeout_ms: 4000,
            hotkey: crate::text::owned("Ctrl+Alt+A"),
            clipboard_fallback_enabled: true,
            show_clipboard_privacy_warning_on_first_use: true,
            disable_in_elevated_windows: true,
            manual_hotkey_always_enabled: true,
            launch_at_startup: false,
            start_minimized_to_tray: false,
            close_button_behavior: CloseButtonBehavior::Ask,
            replacement_target_language: ReplacementTargetLanguage::Auto,
            replacement_custom_target: String::new(),
            translation_target_language: ReplacementTargetLanguage::Auto,
            translation_custom_target: String::new(),
            disabled_apps,
        }
    }
}

/// Some entry of `names` equals `process_name` up to ASCII case.
pub open spec fn names_match_process(names: Seq<String>, process_name: Seq<char>) -> bool {
    exists|i: int| 0 <= i < names.len() && eq_ignore_case(#[trigger] names[i]@, process_name)
}

pub fn any_name_matches_process(names: &Vec<String>, process_name: &str) -> (r: bool)
    ensures
        r == names_match_process(names@, process_name@),
{
    let wanted = crate::text::chars_of(process_name);
    let mut i: usize = 0;
    while i < names.len()
        invariant
            i <= names@.len(),
            wanted@ == process_name@,
            forall|k: int| 0 <= k < i ==> !eq_ignore_case(#[trigger] names@[k]@, process_name@),
        decreases names.len() - i,
    {
        let name = crate::text::chars_of(names[i].as_str());
        if crate::text::eq_ignore_ascii_case_chars(&name, &wanted) {
            return true;
        }
        i = i + 1;
    }
    false
}

impl AppConfig {
    /// The process is on the list of disabled applications (ASCII case ignored).
    pub fn is_disabled_process(&self, process_name: &str) -> (r: bool)
        ensures
            r == names_match_process(self.disabled_apps@, process_name@),
    {
        any_name_matches_process(&self.disabled_apps, process_name)
    }
}

} // verus!
