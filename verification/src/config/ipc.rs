//! What the user interface is shown of the settings, and the provider edits
//! it sends back. No view carries an API key or a header value.
use vstd::prelude::*;

use super::store::{
    AiProviderConfig, AiProviderKind, AppConfig, CloseButtonBehavior, ReplacementTargetLanguage,
};
use crate::text::trim;

verus! {

/// A provider as the settings window lists it.
#[derive(Debug, Clone, PartialEq, Eq)]
pub struct ProviderConfigView {
    pub id: String,
    pub name: String,
    pub base_url: String,
    pub model: String,
    pub provider_kind: AiProviderKind,
    pub api_key_configured: bool,
    pub api_key_ref: String,
    pub custom_headers_configured: bool,
}

/// The pairs of views of a list of headers.
pub open spec fn header_views(h: Seq<(String, String)>) -> Seq<(Seq<char>, Seq<char>)> {
    h.map_values(|p: (String, String)| (p.0@, p.1@))
}

/// A copy of a list of headers.
pub fn copy_headers(headers: &Vec<(String, String)>) -> (r: Vec<(String, String)>)
    ensures
        header_views(r@) == header_views(headers@),
{
    let mut out: Vec<(String, String)> = Vec::new();
    let mut i: usize = 0;
    while i < headers.len()
        invariant
            i <= headers@.len(),
            out@.len() == i,
            header_views(out@) == header_views(headers@.subrange(0, i as int)),
        decreases headers.len() - i,
    {
        let name = crate::text::owned(headers[i].0.as_str());
        let value = crate::text::owned(headers[i].1.as_str());
        let ghost before = out@;
        out.push((name, value));
        i = i + 1;
        assert forall|k: int| 0 <= k < i implies header_views(out@)[k] == header_views(
            headers@.subrange(0, i as int),
        )[k] by {
            if k < i - 1 {
                assert(out@[k] == before[k]);
                assert(header_views(before)[k] == header_views(headers@.subrange(0, i - 1))[k]);
            }
        }
        assert(header_views(out@) =~= header_views(headers@.subrange(0, i as int)));
    }
    assert(headers@.subrange(0, headers@.len() as int) =~= headers@);
    out
}

/// A copy of a list of strings.
pub fn copy_strings(v: &Vec<String>) -> (r: Vec<String>)
    ensures
        crate::config::store::string_views(r@) == crate::config::store::string_views(v@),
{
    let mut out: Vec<String> = Vec::new();
    let mut i: usize = 0;
    while i < v.len()
        invariant
            i <= v@.len(),
            out@.len() == i,
            crate::config::store::string_views(out@) == crate::config::store::string_views(
                v@.subrange(0, i as int),
            ),
        decreases v.len() - i,
    {
        let ghost before = out@;
        out.push(crate::text::owned(v[i].as_str()));
        i = i + 1;
        assert forall|k: int| 0 <= k < i implies crate::config::store::string_views(out@)[k]
            == crate::config::store::string_views(v@.subrange(0, i as int))[k] by {
            if k < i - 1 {
                assert(out@[k] == before[k]);
                assert(crate::config::store::string_views(before)[k]
                    == crate::config::store::string_views(v@.subrange(0, i - 1))[k]);
            }
        }
        assert(crate::config::store::string_views(out@) =~= crate::config::store::string_views(
            v@.subrange(0, i as int),
        ));
    }
    assert(v@.subrange(0, v@.len() as int) =~= v@);
    out
}

/// A copy of an optional string.
pub fn copy_opt(o: &Option<String>) -> (r: Option<String>)
    ensures
        crate::ai::sse::opt_view(r) == crate::ai::sse::opt_view(*o),
{
    match o {
        Some(s) => Some(crate::text::owned(s.as_str())),
        None => None,
    }
}

/// What `view` shows of `provider`.
pub open spec fn provider_view_matches(v: ProviderConfigView, provider: AiProviderConfig) -> bool {
    &&& v.id@ == provider.id@
    &&& v.name@ == provider.name@
    &&& v.base_url@ == provider.base_url@
    &&& v.model@ == provider.model@
    &&& v.provider_kind == provider.provider_kind
    &&& v.api_key_configured == (trim(provider.api_key@).len() > 0)
    &&& v.api_key_ref@ == provider.api_key_ref@
    &&& v.custom_headers_configured == (provider.headers@.len() > 0)
}

impl ProviderConfigView {
    /// The listing of a provider: whether a key and headers are set, not
    /// what they are.
    pub fn from(provider: &AiProviderConfig) -> (v: Self)
        ensures
            provider_view_matches(v, *provider),
    {
        let key = crate::text::trim_str(provider.api_key.as_str());
        ProviderConfigView {
            id: crate::text::owned(provider.id.as_str()),
            name: crate::text::owned(provider.name.as_str()),
            base_url: crate::text::owned(provider.base_url.as_str()),
            model: crate::text::owned(provider.model.as_str()),
            provider_kind: provider.provider_kind,
            api_key_configured: key.len() > 0,
            api_key_ref: crate::text::owned(provider.api_key_ref.as_str()),
            custom_headers_configured: provider.headers.len() > 0,
        }
    }
}

/// The settings as the settings window shows them.
#[derive(Debug, Clone, PartialEq)]
pub struct SettingsConfigView {
    pub default_provider_id: Option<String>,
    pub providers: Vec<ProviderConfigView>,
    pub hotkey: String,
    pub launch_at_startup: bool,
    pub clipboard_fallback_enabled: bool,
    pub start_minimized_to_tray: bool,
    pub close_button_behavior: CloseButtonBehavior,
    pub replacement_target_language: ReplacementTargetLanguage,
    pub replacement_custom_target: String,
    pub translation_target_language: ReplacementTargetLanguage,
    pub translation_custom_target: String,
    pub disabled_apps: Vec<String>,
}

impl SettingsConfigView {
    /// The settings view of `config`, each provider listed as
    /// `ProviderConfigView::from` lists it.
    pub fn from(config: &AppConfig) -> (v: Self)
        ensures
            crate::ai::sse::opt_view(v.default_provider_id) == crate::ai::sse::opt_view(
                config.default_provider_id,
            ),
            v.providers@.len() == config.providers@.len(),
            forall|i: int|
                0 <= i < v.providers@.len() ==> provider_view_matches(
                    #[trigger] v.providers@[i],
                    config.providers@[i],
                ),
            v.hotkey@ == config.hotkey@,
            v.launch_at_startup == config.launch_at_startup,
            v.clipboard_fallback_enabled == config.clipboard_fallback_enabled,
            v.start_minimized_to_tray == config.start_minimized_to_tray,
            v.close_button_behavior == config.close_button_behavior,
            v.replacement_target_language == config.replacement_target_language,
            v.replacement_custom_target@ == config.replacement_custom_target@,
            v.translation_target_language == config.translation_target_language,
            v.translation_custom_target@ == config.translation_custom_target@,
            crate::config::store::string_views(v.disabled_apps@) == crate::config::store::string_views(
                config.disabled_apps@,
            ),
    {
        let mut providers: Vec<ProviderConfigView> = Vec::new();
        let mut i: usize = 0;
        while i < config.providers.len()
            invariant
                i <= config.providers@.len(),
                providers@.len() == i,
                forall|k: int|
                    0 <= k < i ==> provider_view_matches(
                        #[trigger] providers@[k],
                        config.providers@[k],
                    ),
            decreases config.providers.len() - i,
        {
            providers.push(ProviderConfigView::from(&config.providers[i]));
            i = i + 1;
        }
        SettingsConfigView {
            default_provider_id: copy_opt(&config.default_provider_id),
            providers,
            hotkey: crate::text::owned(config.hotkey.as_str()),
            launch_at_startup: config.launch_at_startup,
            clipboard_fallback_enabled: config.clipboard_fallback_enabled,
            start_minimized_to_tray: config.start_minimized_to_tray,
            close_button_behavior: config.close_button_behavior,
            replacement_target_language: config.replacement_target_language,
            replacement_custom_target: crate::text::owned(config.replacement_custom_target.as_str()),
            translation_target_language: config.translation_target_language,
            translation_custom_target: crate::text::owned(config.translation_custom_target.as_str()),
            disabled_apps: copy_strings(&config.disabled_apps),
        }
    }
}

/// The preferences the floating windows read.
#[derive(Debug, Clone, PartialEq, Eq)]
pub struct RuntimePreferences {
    pub hotkey: String,
    pub launch_at_startup: bool,
    pub start_minimized_to_tray: bool,
    pub close_button_behavior: CloseButtonBehavior,
    pub replacement_target_language: ReplacementTargetLanguage,
    pub replacement_custom_target: String,
    pub translation_target_language: ReplacementTargetLanguage,
    pub translation_custom_target: String,
}

impl RuntimePreferences {
    pub fn from(config: &AppConfig) -> (v: Self)
        ensures
            v.hotkey@ == config.hotkey@,
            v.launch_at_startup == config.launch_at_startup,
            v.start_minimized_to_tray == config.start_minimized_to_tray,
            v.close_button_behavior == config.close_button_behavior,
            v.replacement_target_language == config.replacement_target_language,
            v.replacement_custom_target@ == config.replacement_custom_target@,
            v.translation_target_language == config.translation_target_language,
            v.translation_custom_target@ == config.translation_custom_target@,
    {
        RuntimePreferences {
            hotkey: crate::text::owned(config.hotkey.as_str()),
            launch_at_startup: config.launch_at_startup,
            start_minimized_to_tray: config.start_minimized_to_tray,
            close_button_behavior: config.close_button_behavior,
            replacement_target_language: config.replacement_target_language,
            replacement_custom_target: crate::text::owned(config.replacement_custom_target.as_str()),
            translation_target_language: config.translation_target_language,
            translation_custom_target: crate::text::owned(config.translation_custom_target.as_str()),
        }
    }
}

/// What an edit does to a provider's saved API key.
#[derive(Debug, Clone, PartialEq, Eq)]
pub enum SecretUpdate {
    Keep,
    Replace { value: String },
    Clear,
}

impl Default for SecretUpdate {
    fn default() -> (r: Self)
        ensures
            r == SecretUpdate::Keep,
    {
        SecretUpdate::Keep
    }
}

/// A provider as the settings window sends it back: without headers, and
/// with the key as an edit of the saved one.
#[derive(Debug, Clone, PartialEq, Eq)]
pub struct ProviderUpdate {
    pub original_provider_id: Option<String>,
    pub id: String,
    pub name: String,
    pub base_url: String,
    pub model: String,
    pub provider_kind: AiProviderKind,
    pub api_key: SecretUpdate,
    pub api_key_ref: String,
}

/// The original id, trimmed, where it is given and not blank; else the id.
pub open spec fn spec_storage_provider_id(update: ProviderUpdate) -> Seq<char> {
    match update.original_provider_id {
        Some(o) => if trim(o@).len() > 0 {
            trim(o@)
        } else {
            update.id@
        },
        None => update.id@,
    }
}

/// Index of the first provider whose id is `id`.
pub open spec fn find_provider(providers: Seq<AiProviderConfig>, id: Seq<char>) -> Option<int> {
    if exists|i: int| 0 <= i < providers.len() && (#[trigger] providers[i]).id@ == id {
        Some(
            choose|i: int|
                0 <= i < providers.len() && (#[trigger] providers[i]).id@ == id && forall|k: int|
                    0 <= k < i ==> (#[trigger] providers[k]).id@ != id,
        )
    } else {
        None
    }
}

/// Finds the first provider whose id is `id`.
pub fn find_provider_index(providers: &Vec<AiProviderConfig>, id: &str) -> (r: Option<usize>)
    ensures
        match r {
            Some(i) => i < providers@.len() && providers@[i as int].id@ == id@ && forall|k: int|
                0 <= k < i ==> (#[trigger] providers@[k]).id@ != id@,
            None => forall|k: int| 0 <= k < providers@.len() ==> (#[trigger] providers@[k]).id@ != id@,
        },
        r matches Some(i) ==> find_provider(providers@, id@) == Some(i as int),
        r is None ==> find_provider(providers@, id@) is None,
{
    let wanted = crate::text::chars_of(id);
    let mut i: usize = 0;
    while i < providers.len()
        invariant
            i <= providers@.len(),
            wanted@ == id@,
            forall|k: int| 0 <= k < i ==> (#[trigger] providers@[k]).id@ != id@,
        decreases providers.len() - i,
    {
        let candidate = crate::text::chars_of(providers[i].id.as_str());
        if crate::text::chars_eq(&candidate, &wanted) {
            proof {
                let j = i as int;
                assert(0 <= j < providers@.len() && providers@[j].id@ == id@);
                let c = choose|c: int|
                    0 <= c < providers@.len() && (#[trigger] providers@[c]).id@ == id@ && forall|
                        k: int,
                    | 0 <= k < c ==> (#[trigger] providers@[k]).id@ != id@;
                assert(forall|k: int| 0 <= k < j ==> (#[trigger] providers@[k]).id@ != id@);
                if c < j {
                } else if c > j {
                    assert(providers@[j].id@ != id@);
                }
            }
            return Some(i);
        }
        i = i + 1;
    }
    None
}

/// What `resolve` makes of an update: the update's fields, the key as the
/// edit says (kept from the provider saved under the storage id), and that
/// provider's headers.
pub open spec fn resolves_to(update: ProviderUpdate, config: AppConfig, p: AiProviderConfig) -> bool {
    let existing = find_provider(config.providers@, spec_storage_provider_id(update));
    &&& p.id@ == update.id@
    &&& p.name@ == update.name@
    &&& p.base_url@ == update.base_url@
    &&& p.model@ == update.model@
    &&& p.provider_kind == update.provider_kind
    &&& p.api_key_ref@ == update.api_key_ref@
    &&& p.api_key@ == match update.api_key {
        SecretUpdate::Keep => match existing {
            Some(i) => config.providers@[i].api_key@,
            None => Seq::<char>::empty(),
        },
        SecretUpdate::Replace { value } => value@,
        SecretUpdate::Clear => Seq::<char>::empty(),
    }
    &&& header_views(p.headers@) == match existing {
        Some(i) => header_views(config.providers@[i].headers@),
        None => Seq::empty(),
    }
}

impl ProviderUpdate {
    /// The id the provider is saved under before this edit (see
    /// `spec_storage_provider_id`).
    pub fn storage_provider_id(&self) -> (r: String)
        ensures
            r@ == spec_storage_provider_id(*self),
    {
        match &self.original_provider_id {
            Some(original) => {
                let t = crate::text::trim_str(original.as_str());
                if t.len() > 0 {
                    crate::text::string_of(&t)
                } else {
                    crate::text::owned(self.id.as_str())
                }
            },
            None => crate::text::owned(self.id.as_str()),
        }
    }

    /// The provider this edit describes, completed from the saved one.
    pub fn resolve(&self, config: &AppConfig) -> (p: AiProviderConfig)
        ensures
            resolves_to(*self, *config, p),
    {
        let storage = self.storage_provider_id();
        let existing = find_provider_index(&config.providers, storage.as_str());
        let api_key = match &self.api_key {
            SecretUpdate::Keep => match existing {
                Some(i) => crate::text::owned(config.providers[i].api_key.as_str()),
                None => String::new(),
            },
            SecretUpdate::Replace { value } => crate::text::owned(value.as_str()),
            SecretUpdate::Clear => String::new(),
        };
        let headers = match existing {
            Some(i) => copy_headers(&config.providers[i].headers),
            None => Vec::new(),
        };
        proof {
            assert(header_views(Seq::<(String, String)>::empty()) =~= Seq::empty());
        }
        AiProviderConfig {
            id: crate::text::owned(self.id.as_str()),
            name: crate::text::owned(self.name.as_str()),
            base_url: crate::text::owned(self.base_url.as_str()),
            model: crate::text::owned(self.model.as_str()),
            provider_kind: self.provider_kind,
            api_key,
            api_key_ref: crate::text::owned(self.api_key_ref.as_str()),
            headers,
        }
    }
}

/// Two providers with the same settings.
pub open spec fn same_provider(a: AiProviderConfig, b: AiProviderConfig) -> bool {
    &&& a.id@ == b.id@
    &&& a.name@ == b.name@
    &&& a.base_url@ == b.base_url@
    &&& a.model@ == b.model@
    &&& a.provider_kind == b.provider_kind
    &&& a.api_key@ == b.api_key@
    &&& a.api_key_ref@ == b.api_key_ref@
    &&& header_views(a.headers@) == header_views(b.headers@)
}

/// A copy of a provider.
pub fn copy_provider(p: &AiProviderConfig) -> (r: AiProviderConfig)
    ensures
        same_provider(r, *p),
{
    AiProviderConfig {
        id: crate::text::owned(p.id.as_str()),
        name: crate::text::owned(p.name.as_str()),
        base_url: crate::text::owned(p.base_url.as_str()),
        model: crate::text::owned(p.model.as_str()),
        provider_kind: p.provider_kind,
        api_key: crate::text::owned(p.api_key.as_str()),
        api_key_ref: crate::text::owned(p.api_key_ref.as_str()),
        headers: copy_headers(&p.headers),
    }
}

} // verus!
