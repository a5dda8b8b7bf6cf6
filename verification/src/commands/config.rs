//! The edits the settings window makes: each computes the settings that
//! would result, or the error it is refused with; the caller saves the
//! result and only then makes it current.
use vstd::prelude::*;

use crate::commands::panel::TargetPresetKind;
use crate::config::ipc::{find_provider, resolves_to, spec_storage_provider_id};
use crate::config::{
    AiProviderConfig, AppBehaviorConfig, AppConfig, ProviderUpdate, ReplacementTargetLanguage,
};
use crate::text::trim;
use crate::types::PublicError;

verus! {

/// No two providers share an id.
pub open spec fn provider_ids_unique(ps: Seq<AiProviderConfig>) -> bool {
    forall|i: int, j: int| 0 <= i < j < ps.len() ==> (#[trigger] ps[i]).id@ != (#[trigger] ps[j]).id@
}

/// Some provider has the id `id`.
pub open spec fn has_provider(ps: Seq<AiProviderConfig>, id: Seq<char>) -> bool {
    exists|i: int| 0 <= i < ps.len() && (#[trigger] ps[i]).id@ == id
}

/// The settings every edit keeps: provider ids are unique, and the default
/// provider, where there is one, is one of the providers.
pub open spec fn config_well_formed(c: AppConfig) -> bool {
    &&& provider_ids_unique(c.providers@)
    &&& match c.default_provider_id {
        Some(d) => has_provider(c.providers@, d@),
        None => true,
    }
}

/// The providers without those whose id is `id`, in order.
pub open spec fn without_id(ps: Seq<AiProviderConfig>, id: Seq<char>) -> Seq<AiProviderConfig>
    decreases ps.len(),
{
    if ps.len() == 0 {
        ps
    } else if ps.last().id@ == id {
        without_id(ps.drop_last(), id)
    } else {
        without_id(ps.drop_last(), id).push(ps.last())
    }
}

/// The fields of the settings other than the providers and the default.
pub open spec fn same_other_than_providers(a: AppConfig, b: AppConfig) -> bool {
    &&& a.hover_delay_ms == b.hover_delay_ms
    &&& a.candidate_timeout_ms == b.candidate_timeout_ms
    &&& a.hotkey == b.hotkey
    &&& a.clipboard_fallback_enabled == b.clipboard_fallback_enabled
    &&& a.show_clipboard_privacy_warning_on_first_use == b.show_clipboard_privacy_warning_on_first_use
    &&& a.disable_in_elevated_windows == b.disable_in_elevated_windows
    &&& a.manual_hotkey_always_enabled == b.manual_hotkey_always_enabled
    &&& a.launch_at_startup == b.launch_at_startup
    &&& a.start_minimized_to_tray == b.start_minimized_to_tray
    &&& a.close_button_behavior == b.close_button_behavior
    &&& a.replacement_target_language == b.replacement_target_language
    &&& a.replacement_custom_target == b.replacement_custom_target
    &&& a.translation_target_language == b.translation_target_language
    &&& a.translation_custom_target == b.translation_custom_target
    &&& a.disabled_apps == b.disabled_apps
}

/// The settings with the behaviour section replaced; the hotkey and the
/// custom targets are trimmed.
pub fn behavior_candidate(config: AppConfig, preferences: &AppBehaviorConfig) -> (r: AppConfig)
    ensures
        r.hotkey@ == trim(preferences.hotkey@),
        r.launch_at_startup == preferences.launch_at_startup,
        r.start_minimized_to_tray == preferences.start_minimized_to_tray,
        r.close_button_behavior == preferences.close_button_behavior,
        r.replacement_target_language == preferences.replacement_target_language,
        r.replacement_custom_target@ == trim(preferences.replacement_custom_target@),
        r.translation_target_language == preferences.translation_target_language,
        r.translation_custom_target@ == trim(preferences.translation_custom_target@),
        r.default_provider_id == config.default_provider_id,
        r.providers == config.providers,
        r.hover_delay_ms == config.hover_delay_ms,
        r.candidate_timeout_ms == config.candidate_timeout_ms,
        r.clipboard_fallback_enabled == config.clipboard_fallback_enabled,
        r.show_clipboard_privacy_warning_on_first_use
            == config.show_clipboard_privacy_warning_on_first_use,
        r.disable_in_elevated_windows == config.disable_in_elevated_windows,
        r.manual_hotkey_always_enabled == config.manual_hotkey_always_enabled,
        r.disabled_apps == config.disabled_apps,
        config_well_formed(config) ==> config_well_formed(r),
{
    let mut candidate = config;
    candidate.hotkey = crate::text::string_of(&crate::text::trim_str(preferences.hotkey.as_str()));
    candidate.launch_at_startup = preferences.launch_at_startup;
    candidate.start_minimized_to_tray = preferences.start_minimized_to_tray;
    candidate.close_button_behavior = preferences.close_button_behavior;
    candidate.replacement_target_language = preferences.replacement_target_language;
    candidate.replacement_custom_target = crate::text::string_of(
        &crate::text::trim_str(preferences.replacement_custom_target.as_str()),
    );
    candidate.translation_target_language = preferences.translation_target_language;
    candidate.translation_custom_target = crate::text::string_of(
        &crate::text::trim_str(preferences.translation_custom_target.as_str()),
    );
    candidate
}

/// The settings with one output target replaced. A custom target must not
/// be blank; it is stored trimmed.
pub fn output_target_candidate(
    config: AppConfig,
    kind: TargetPresetKind,
    target_language: ReplacementTargetLanguage,
    custom_target: &str,
) -> (r: Result<AppConfig, PublicError>)
    ensures
        r is Err <==> (target_language == ReplacementTargetLanguage::Custom && trim(custom_target@).len()
            == 0),
        r matches Err(e) ==> e.code@ == "output_target_required"@,
        r matches Ok(c) ==> match kind {
            TargetPresetKind::Replacement => {
                &&& c.replacement_target_language == target_language
                &&& c.replacement_custom_target@ == trim(custom_target@)
                &&& c.translation_target_language == config.translation_target_language
                &&& c.translation_custom_target == config.translation_custom_target
            },
            TargetPresetKind::Translation => {
                &&& c.translation_target_language == target_language
                &&& c.translation_custom_target@ == trim(custom_target@)
                &&& c.replacement_target_language == config.replacement_target_language
                &&& c.replacement_custom_target == config.replacement_custom_target
            },
        },
        r matches Ok(c) ==> c.providers == config.providers && c.default_provider_id
            == config.default_provider_id && c.hotkey == config.hotkey,
        r matches Ok(c) ==> (config_well_formed(config) ==> config_well_formed(c)),
{
    let custom = crate::text::trim_str(custom_target);
    if target_language == ReplacementTargetLanguage::Custom && custom.len() == 0 {
        return Err(crate::types::public_error("output_target_required", "自定义输出目标不能为空。"));
    }
    let mut candidate = config;
    match kind {
        TargetPresetKind::Replacement => {
            candidate.replacement_target_language = target_language;
            candidate.replacement_custom_target = crate::text::string_of(&custom);
        },
        TargetPresetKind::Translation => {
            candidate.translation_target_language = target_language;
            candidate.translation_custom_target = crate::text::string_of(&custom);
        },
    }
    Ok(candidate)
}

/// A provider must have an id and a base URL (a blank model is allowed, so
/// that the model list can be loaded first).
pub fn validate_provider(provider: &AiProviderConfig) -> (r: Result<(), PublicError>)
    ensures
        r is Ok <==> trim(provider.id@).len() > 0 && trim(provider.base_url@).len() > 0,
        r matches Err(e) ==> if trim(provider.id@).len() == 0 {
            e.code@ == "provider_id_required"@
        } else {
            e.code@ == "provider_config_incomplete"@
        },
{
    if crate::text::trim_str(provider.id.as_str()).len() == 0 {
        return Err(crate::types::public_error("provider_id_required", "Provider id is required."));
    }
    if crate::text::trim_str(provider.base_url.as_str()).len() == 0 {
        return Err(
            crate::types::public_error(
                "provider_config_incomplete",
                "Provider base URL is required.",
            ),
        );
    }
    Ok(())
}

/// Another provider than the one being edited already has the id.
pub open spec fn id_conflict(ps: Seq<AiProviderConfig>, id: Seq<char>, original: Option<Seq<char>>) -> bool {
    exists|i: int|
        0 <= i < ps.len() && (#[trigger] ps[i]).id@ == id && original != Some(ps[i].id@)
}

/// Refuses an id that another provider than the edited one has.
pub fn validate_provider_id_available(
    config: &AppConfig,
    provider_id: &str,
    original_provider_id: Option<&str>,
) -> (r: Result<(), PublicError>)
    ensures
        r is Err <==> id_conflict(
            config.providers@,
            provider_id@,
            match original_provider_id {
                Some(o) => Some(o@),
                None => None,
            },
        ),
        r matches Err(e) ==> e.code@ == "provider_id_conflict"@ && e.message@
            == "Provider with id '"@ + provider_id@ + "' already exists."@,
{
    let ghost original = match original_provider_id {
        Some(o) => Some(o@),
        None => None::<Seq<char>>,
    };
    let wanted = crate::text::chars_of(provider_id);
    let mut i: usize = 0;
    while i < config.providers.len()
        invariant
            i <= config.providers@.len(),
            wanted@ == provider_id@,
            original == match original_provider_id {
                Some(o) => Some(o@),
                None => None::<Seq<char>>,
            },
            forall|k: int|
                0 <= k < i ==> !((#[trigger] config.providers@[k]).id@ == provider_id@ && original
                    != Some(config.providers@[k].id@)),
        decreases config.providers.len() - i,
    {
        let id = crate::text::chars_of(config.providers[i].id.as_str());
        let same_as_original = match original_provider_id {
            Some(o) => {
                let oc = crate::text::chars_of(o);
                crate::text::chars_eq(&id, &oc)
            },
            None => false,
        };
        if crate::text::chars_eq(&id, &wanted) && !same_as_original {
            let mut message = crate::text::chars_of("Provider with id '");
            crate::text::push_str(&mut message, provider_id);
            crate::text::push_str(&mut message, "' already exists.");
            return Err(
                PublicError {
                    code: crate::text::owned("provider_id_conflict"),
                    message: crate::text::string_of(&message),
                },
            );
        }
        i = i + 1;
    }
    Ok(())
}

/// The providers after saving `provider` under `storage_id`: in place of
/// the first provider with that id, else at the end.
pub open spec fn saved_providers(
    ps: Seq<AiProviderConfig>,
    provider: AiProviderConfig,
    storage_id: Seq<char>,
) -> Seq<AiProviderConfig> {
    match find_provider(ps, storage_id) {
        Some(i) => ps.update(i, provider),
        None => ps.push(provider),
    }
}

/// Saves `provider` under `storage_id` and makes it the default.
fn save_provider_into(config: AppConfig, provider: AiProviderConfig, storage_id: &str) -> (r:
    AppConfig)
    ensures
        r.providers@ == saved_providers(config.providers@, provider, storage_id@),
        r.default_provider_id matches Some(d) && d@ == provider.id@,
        same_other_than_providers(r, config),
{
    let found = crate::config::ipc::find_provider_index(&config.providers, storage_id);
    let default_id = crate::text::owned(provider.id.as_str());
    let mut candidate = config;
    match found {
        Some(i) => {
            candidate.providers.set(i, provider);
        },
        None => {
            candidate.providers.push(provider);
        },
    }
    candidate.default_provider_id = Some(default_id);
    candidate
}

proof fn lemma_find_in_unique(ps: Seq<AiProviderConfig>, id: Seq<char>)
    requires
        provider_ids_unique(ps),
    ensures
        find_provider(ps, id) is None ==> !has_provider(ps, id),
        find_provider(ps, id) matches Some(i) ==> 0 <= i < ps.len() && ps[i].id@ == id && forall|k: int|
            0 <= k < ps.len() && k != i ==> (#[trigger] ps[k]).id@ != id,
{
    if let Some(i) = find_provider(ps, id) {
        assert forall|k: int| 0 <= k < ps.len() && k != i implies (#[trigger] ps[k]).id@ != id by {
            if k < i {
                assert(ps[k].id@ != ps[i].id@);
            } else {
                assert(ps[i].id@ != ps[k].id@);
            }
        }
    }
}

proof fn lemma_saved_keeps_well_formed(
    ps: Seq<AiProviderConfig>,
    provider: AiProviderConfig,
    storage_id: Seq<char>,
)
    requires
        provider_ids_unique(ps),
        find_provider(ps, storage_id) is None ==> !has_provider(ps, provider.id@),
        find_provider(ps, storage_id) matches Some(i) ==> forall|k: int|
            0 <= k < ps.len() && k != i ==> (#[trigger] ps[k]).id@ != provider.id@,
    ensures
        provider_ids_unique(saved_providers(ps, provider, storage_id)),
        has_provider(saved_providers(ps, provider, storage_id), provider.id@),
{
    let out = saved_providers(ps, provider, storage_id);
    match find_provider(ps, storage_id) {
        Some(i) => {
            assert(out[i] == provider);
            assert forall|a: int, b: int| 0 <= a < b < out.len() implies (#[trigger] out[a]).id@
                != (#[trigger] out[b]).id@ by {
                if a == i {
                    assert(ps[b].id@ != provider.id@);
                } else if b == i {
                    assert(ps[a].id@ != provider.id@);
                } else {
                    assert(out[a] == ps[a] && out[b] == ps[b]);
                }
            }
        },
        None => {
            let n = ps.len() as int;
            assert(out[n] == provider);
            assert forall|a: int, b: int| 0 <= a < b < out.len() implies (#[trigger] out[a]).id@
                != (#[trigger] out[b]).id@ by {
                if b == n {
                    assert(out[a] == ps[a]);
                    if ps[a].id@ == provider.id@ {
                        assert(has_provider(ps, provider.id@));
                    }
                } else {
                    assert(out[a] == ps[a] && out[b] == ps[b]);
                }
            }
        },
    }
}

/// The settings after saving a provider as given: it replaces the provider
/// with its id, or is added, and becomes the default. Saving keeps the
/// settings well formed.
pub fn provider_config_candidate(config: AppConfig, provider: AiProviderConfig) -> (r: Result<
    AppConfig,
    PublicError,
>)
    ensures
        r is Ok <==> trim(provider.id@).len() > 0 && trim(provider.base_url@).len() > 0,
        r matches Err(e) ==> if trim(provider.id@).len() == 0 {
            e.code@ == "provider_id_required"@
        } else {
            e.code@ == "provider_config_incomplete"@
        },
        r matches Ok(c) ==> c.providers@ == saved_providers(
            config.providers@,
            provider,
            provider.id@,
        ) && (c.default_provider_id matches Some(d) && d@ == provider.id@)
            && same_other_than_providers(c, config),
        r matches Ok(c) ==> (config_well_formed(config) ==> config_well_formed(c)),
{
    match validate_provider(&provider) {
        Err(e) => return Err(e),
        Ok(()) => {},
    }
    let storage_id = crate::text::owned(provider.id.as_str());
    let ghost old_ps = config.providers@;
    let ghost p = provider;
    let ghost wf = config_well_formed(config);
    let r = save_provider_into(config, provider, storage_id.as_str());
    proof {
        if wf {
            lemma_find_in_unique(old_ps, p.id@);
            lemma_saved_keeps_well_formed(old_ps, p, p.id@);
        }
    }
    Ok(r)
}

/// The trimmed original id of an edit, where one is given and not blank.
pub open spec fn spec_original_id(update: ProviderUpdate) -> Option<Seq<char>> {
    match update.original_provider_id {
        Some(o) => if trim(o@).len() > 0 {
            Some(trim(o@))
        } else {
            None
        },
        None => None,
    }
}

/// The settings after saving an edit from the settings window: the edit is
/// resolved against the saved provider, checked, refused where another
/// provider already has the new id, and saved under its original id.
/// Saving keeps the settings well formed.
pub fn provider_update_candidate(config: AppConfig, update: &ProviderUpdate) -> (r: Result<
    AppConfig,
    PublicError,
>)
    ensures
        r is Ok <==> trim(update.id@).len() > 0 && trim(update.base_url@).len() > 0 && !id_conflict(
            config.providers@,
            update.id@,
            spec_original_id(*update),
        ),
        r matches Err(e) ==> if trim(update.id@).len() == 0 {
            e.code@ == "provider_id_required"@
        } else if trim(update.base_url@).len() == 0 {
            e.code@ == "provider_config_incomplete"@
        } else {
            e.code@ == "provider_id_conflict"@ && e.message@ == "Provider with id '"@ + update.id@
                + "' already exists."@
        },
        r matches Ok(c) ==> (exists|p: AiProviderConfig|
            #![trigger resolves_to(*update, config, p)]
            resolves_to(*update, config, p) && c.providers@ == saved_providers(
                config.providers@,
                p,
                spec_storage_provider_id(*update),
            )) && (c.default_provider_id matches Some(d) && d@ == update.id@)
            && same_other_than_providers(c, config),
        r matches Ok(c) ==> (config_well_formed(config) ==> config_well_formed(c)),
{
    let provider = update.resolve(&config);
    let storage_id = update.storage_provider_id();
    let original: Option<Vec<char>> = match &update.original_provider_id {
        Some(o) => {
            let t = crate::text::trim_str(o.as_str());
            if t.len() > 0 {
                Some(t)
            } else {
                None
            }
        },
        None => None,
    };
    match validate_provider(&provider) {
        Err(e) => return Err(e),
        Ok(()) => {},
    }
    let original_text: Option<String> = match &original {
        Some(t) => Some(crate::text::string_of(t)),
        None => None,
    };
    let checked = match &original_text {
        Some(t) => validate_provider_id_available(&config, provider.id.as_str(), Some(t.as_str())),
        None => validate_provider_id_available(&config, provider.id.as_str(), None),
    };
    match checked {
        Err(e) => return Err(e),
        Ok(()) => {},
    }
    let ghost old_ps = config.providers@;
    let ghost p = provider;
    let ghost sid = storage_id@;
    let ghost wf = config_well_formed(config);
    let ghost orig = spec_original_id(*update);
    assert(orig == match original_text {
        Some(t) => Some(t@),
        None => None::<Seq<char>>,
    });
    let r = save_provider_into(config, provider, storage_id.as_str());
    proof {
        if wf {
            match find_provider(old_ps, sid) {
                Some(i) => {
                    assert forall|k: int| 0 <= k < old_ps.len() && k != i implies (#[trigger] old_ps[
                        k]).id@ != p.id@ by {
                        if old_ps[k].id@ == p.id@ {
                            assert(orig == Some(old_ps[k].id@));
                            assert(old_ps[i].id@ == sid);
                            assert(sid == orig->Some_0);
                            if k < i {
                                assert(old_ps[k].id@ != old_ps[i].id@);
                            } else {
                                assert(old_ps[i].id@ != old_ps[k].id@);
                            }
                        }
                    }
                },
                None => {
                    if has_provider(old_ps, p.id@) {
                        let k = choose|k: int| 0 <= k < old_ps.len() && (#[trigger] old_ps[k]).id@
                            == p.id@;
                        assert(orig == Some(old_ps[k].id@));
                        assert(exists|j: int| 0 <= j < old_ps.len() && (#[trigger] old_ps[j]).id@ == sid);
                    }
                },
            }
            lemma_saved_keeps_well_formed(old_ps, p, sid);
        }
    }
    Ok(r)
}

/// The settings with another default provider, which must exist.
pub fn default_provider_candidate(config: AppConfig, provider_id: &str) -> (r: Result<
    AppConfig,
    PublicError,
>)
    ensures
        r is Ok <==> has_provider(config.providers@, provider_id@),
        r matches Err(e) ==> e.code@ == "provider_not_found"@ && e.message@ == "Provider with id '"@
            + provider_id@ + "' not found."@,
        r matches Ok(c) ==> c.providers == config.providers && (c.default_provider_id matches Some(
            d,
        ) && d@ == provider_id@) && same_other_than_providers(c, config),
        r matches Ok(c) ==> (config_well_formed(config) ==> config_well_formed(c)),
{
    match crate::config::ipc::find_provider_index(&config.providers, provider_id) {
        None => {
            proof {
                if has_provider(config.providers@, provider_id@) {
                    let k = choose|k: int|
                        0 <= k < config.providers@.len() && (#[trigger] config.providers@[k]).id@
                            == provider_id@;
                    assert(config.providers@[k].id@ != provider_id@);
                }
            }
            let mut message = crate::text::chars_of("Provider with id '");
            crate::text::push_str(&mut message, provider_id);
            crate::text::push_str(&mut message, "' not found.");
            Err(
                PublicError {
                    code: crate::text::owned("provider_not_found"),
                    message: crate::text::string_of(&message),
                },
            )
        },
        Some(i) => {
            let mut candidate = config;
            candidate.default_provider_id = Some(crate::text::owned(provider_id));
            assert(candidate.providers@[i as int].id@ == provider_id@);
            Ok(candidate)
        },
    }
}

proof fn lemma_without_id_from(ps: Seq<AiProviderConfig>, id: Seq<char>)
    ensures
        without_id(ps, id).len() <= ps.len(),
        forall|k: int|
            0 <= k < without_id(ps, id).len() ==> exists|j: int|
                0 <= j < ps.len() && ps[j] == #[trigger] without_id(ps, id)[k],
    decreases ps.len(),
{
    if ps.len() > 0 {
        let init = ps.drop_last();
        lemma_without_id_from(init, id);
        let w = without_id(init, id);
        let out = without_id(ps, id);
        assert forall|k: int| 0 <= k < out.len() implies exists|j: int|
            0 <= j < ps.len() && ps[j] == #[trigger] out[k] by {
            if k < w.len() {
                assert(out[k] == w[k]);
                let j = choose|j: int| 0 <= j < init.len() && init[j] == w[k];
                assert(ps[j] == init[j]);
            } else {
                assert(out[k] == ps[ps.len() - 1]);
            }
        }
    }
}

proof fn lemma_without_id_keeps(ps: Seq<AiProviderConfig>, id: Seq<char>)
    ensures
        forall|j: int|
            0 <= j < ps.len() && (#[trigger] ps[j]).id@ != id ==> exists|k: int|
                0 <= k < without_id(ps, id).len() && without_id(ps, id)[k] == ps[j],
    decreases ps.len(),
{
    if ps.len() > 0 {
        let init = ps.drop_last();
        lemma_without_id_keeps(init, id);
        let w = without_id(init, id);
        let out = without_id(ps, id);
        assert forall|j: int| 0 <= j < ps.len() && (#[trigger] ps[j]).id@ != id implies exists|
            k: int,
        | 0 <= k < out.len() && out[k] == ps[j] by {
            if j < ps.len() - 1 {
                assert(init[j] == ps[j]);
                let k = choose|k: int| 0 <= k < w.len() && w[k] == init[j];
                assert(out[k] == w[k]);
            } else {
                assert(out[w.len() as int] == ps.last());
            }
        }
    }
}

proof fn lemma_without_id_len(ps: Seq<AiProviderConfig>, id: Seq<char>)
    ensures
        without_id(ps, id).len() == ps.len() <==> !has_provider(ps, id),
        without_id(ps, id).len() <= ps.len(),
    decreases ps.len(),
{
    if ps.len() > 0 {
        let init = ps.drop_last();
        lemma_without_id_len(init, id);
        if has_provider(ps, id) {
            let j = choose|j: int| 0 <= j < ps.len() && (#[trigger] ps[j]).id@ == id;
            if j < ps.len() - 1 {
                assert(init[j] == ps[j]);
                assert(has_provider(init, id));
            }
        } else {
            assert forall|j: int| 0 <= j < init.len() implies (#[trigger] init[j]).id@ != id by {
                assert(init[j] == ps[j]);
            }
        }
    }
}

proof fn lemma_without_id_unique(ps: Seq<AiProviderConfig>, id: Seq<char>)
    requires
        provider_ids_unique(ps),
    ensures
        provider_ids_unique(without_id(ps, id)),
    decreases ps.len(),
{
    if ps.len() > 0 {
        let init = ps.drop_last();
        assert forall|a: int, b: int| 0 <= a < b < init.len() implies (#[trigger] init[a]).id@
            != (#[trigger] init[b]).id@ by {
            assert(init[a] == ps[a] && init[b] == ps[b]);
        }
        lemma_without_id_unique(init, id);
        lemma_without_id_from(init, id);
        let w = without_id(init, id);
        let out = without_id(ps, id);
        if ps.last().id@ != id {
            assert forall|a: int, b: int| 0 <= a < b < out.len() implies (#[trigger] out[a]).id@
                != (#[trigger] out[b]).id@ by {
                if b == w.len() {
                    assert(out[a] == w[a]);
                    let j = choose|j: int| 0 <= j < init.len() && init[j] == w[a];
                    assert(ps[j] == init[j]);
                    assert(ps[j].id@ != ps[ps.len() - 1].id@);
                } else {
                    assert(out[a] == w[a] && out[b] == w[b]);
                }
            }
        }
    }
}

/// The settings without the providers whose id is `provider_id`; refused
/// where there is none. A deleted default gives way to the first provider
/// left, or to none. Deleting keeps the settings well formed.
pub fn delete_provider_candidate(config: AppConfig, provider_id: &str) -> (r: Result<
    AppConfig,
    PublicError,
>)
    ensures
        r is Ok <==> has_provider(config.providers@, provider_id@),
        r matches Err(e) ==> e.code@ == "provider_not_found"@ && e.message@ == "Provider with id '"@
            + provider_id@ + "' not found."@,
        r matches Ok(c) ==> c.providers@ == without_id(config.providers@, provider_id@)
            && same_other_than_providers(c, config),
        r matches Ok(c) ==> match config.default_provider_id {
            Some(d) => if d@ == provider_id@ {
                match c.default_provider_id {
                    Some(n) => c.providers@.len() > 0 && n@ == c.providers@[0].id@,
                    None => c.providers@.len() == 0,
                }
            } else {
                c.default_provider_id == config.default_provider_id
            },
            None => c.default_provider_id is None,
        },
        r matches Ok(c) ==> (config_well_formed(config) ==> config_well_formed(c)),
{
    let wanted = crate::text::chars_of(provider_id);
    let ghost old_ps = config.providers@;
    let ghost old_config = config;
    let original_len = config.providers.len();
    let mut candidate = config;
    let mut i: usize = 0;
    let mut k: usize = 0;
    assert(old_ps.subrange(0, 0) =~= Seq::<AiProviderConfig>::empty());
    assert(candidate.providers@ =~= without_id(old_ps.subrange(0, 0), provider_id@) + old_ps.subrange(
        0,
        old_ps.len() as int,
    ));
    while i < candidate.providers.len()
        invariant
            wanted@ == provider_id@,
            k <= old_ps.len(),
            original_len == old_ps.len(),
            i == without_id(old_ps.subrange(0, k as int), provider_id@).len(),
            candidate.providers@ == without_id(old_ps.subrange(0, k as int), provider_id@)
                + old_ps.subrange(k as int, old_ps.len() as int),
            same_other_than_providers(candidate, old_config),
            candidate.default_provider_id == old_config.default_provider_id,
        decreases candidate.providers.len() - i,
    {
        let ghost before = candidate.providers@;
        let ghost w = without_id(old_ps.subrange(0, k as int), provider_id@);
        let ghost x = old_ps[k as int];
        assert(old_ps.subrange(0, k + 1).drop_last() =~= old_ps.subrange(0, k as int));
        assert(old_ps.subrange(0, k + 1).last() == x);
        assert(before[i as int] == x);
        let id = crate::text::chars_of(candidate.providers[i].id.as_str());
        if crate::text::chars_eq(&id, &wanted) {
            let _removed = candidate.providers.remove(i);
            assert(candidate.providers@ =~= w + old_ps.subrange(k + 1, old_ps.len() as int));
        } else {
            assert(w.push(x) + old_ps.subrange(k + 1, old_ps.len() as int) =~= before);
            i = i + 1;
        }
        k = k + 1;
    }
    proof {
        assert(old_ps.subrange(0, old_ps.len() as int) =~= old_ps);
        if k < old_ps.len() {
            assert(candidate.providers@.len() > i);
        }
        assert(candidate.providers@ =~= without_id(old_ps, provider_id@));
        lemma_without_id_len(old_ps, provider_id@);
    }
    if candidate.providers.len() == original_len {
        let mut message = crate::text::chars_of("Provider with id '");
        crate::text::push_str(&mut message, provider_id);
        crate::text::push_str(&mut message, "' not found.");
        return Err(
            PublicError {
                code: crate::text::owned("provider_not_found"),
                message: crate::text::string_of(&message),
            },
        );
    }
    let default_deleted = match &candidate.default_provider_id {
        Some(d) => {
            let dc = crate::text::chars_of(d.as_str());
            crate::text::chars_eq(&dc, &wanted)
        },
        None => false,
    };
    if default_deleted {
        candidate.default_provider_id = if candidate.providers.len() > 0 {
            Some(crate::text::owned(candidate.providers[0].id.as_str()))
        } else {
            None
        };
    }
    proof {
        let c = candidate;
        if config_well_formed(old_config) {
            lemma_without_id_unique(old_ps, provider_id@);
            lemma_without_id_keeps(old_ps, provider_id@);
            if !default_deleted {
                if let Some(d) = c.default_provider_id {
                    let j = choose|j: int| 0 <= j < old_ps.len() && (#[trigger] old_ps[j]).id@ == d@;
                    assert(old_ps[j].id@ != provider_id@);
                    let k2 = choose|k2: int|
                        0 <= k2 < c.providers@.len() && c.providers@[k2] == old_ps[j];
                    assert(c.providers@[k2].id@ == d@);
                }
            } else if c.providers@.len() > 0 {
                assert(c.providers@[0].id@ == c.default_provider_id->Some_0@);
            }
        }
    }
    Ok(candidate)
}

} // verus!
