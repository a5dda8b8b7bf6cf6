pub mod ipc;
pub mod store;

pub use ipc::{
    ProviderConfigView, ProviderUpdate, RuntimePreferences, SecretUpdate, SettingsConfigView,
};
pub use store::{
    AiProviderConfig, AiProviderKind, AppBehaviorConfig, AppConfig, CloseButtonBehavior,
    ReplacementTargetLanguage,
};
