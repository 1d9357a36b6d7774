use codex_kit::minimax::catalog::minimax_model;
use codex_kit::minimax::catalog::reasoning_effort_preset;
use codex_kit::minimax::catalog::static_model_catalog;
use codex_kit::minimax::catalog::InputModality;
use codex_kit::minimax::catalog::ModelsResponse;
use codex_kit::minimax::catalog::ReasoningEffort;
use codex_kit::minimax::catalog::TruncationPolicyConfig;
use codex_kit::minimax::provider::MinimaxModelProvider;
use codex_kit::minimax::provider::OfferedCatalog;
use codex_kit::minimax::provider::ProviderAccount;
use codex_kit::minimax::provider::ProviderAccountState;
use std::sync::Arc;

struct ModelProviderInfo {
    name: String,
    base_url: Option<String>,
}

struct AuthManager {
    api_key: String,
}

fn info() -> ModelProviderInfo {
    ModelProviderInfo {
        name: "minimax".to_string(),
        base_url: Some("https://api.minimax.io/v1".to_string()),
    }
}

fn provider() -> MinimaxModelProvider<ModelProviderInfo, Arc<AuthManager>> {
    MinimaxModelProvider::new(info(), None)
}

#[test]
fn catalog_contains_six_models() {
    let catalog = static_model_catalog();
    assert_eq!(catalog.models.len(), 6);
}

#[test]
fn m3_is_default_model() {
    let catalog = static_model_catalog();
    let default_model = catalog
        .models
        .iter()
        .find(|model| model.slug == "MiniMax-M3")
        .expect("Catalog should include MiniMax-M3");
    assert_eq!(default_model.priority, 0);
}

#[test]
fn m3_has_512k_context_window() {
    let catalog = static_model_catalog();
    let m3_model = catalog
        .models
        .iter()
        .find(|model| model.slug == "MiniMax-M3")
        .expect("Catalog should include MiniMax-M3");
    assert_eq!(m3_model.context_window, Some(512_000));
}

#[test]
fn every_minimax_model_supports_image_input() {
    let catalog = static_model_catalog();
    assert!(!catalog.models.is_empty(), "catalog should not be empty");
    for model in &catalog.models {
        assert!(
            model.input_modalities.contains(&InputModality::Image),
            "MiniMax model {} must declare Image input modality                  (server-side MCP image tools rely on this)",
            model.slug,
        );
        assert!(
            model.input_modalities.contains(&InputModality::Text),
            "MiniMax model {} must declare Text input modality",
            model.slug,
        );
    }
}

#[test]
fn m2_7_has_200k_context_window() {
    let catalog = static_model_catalog();
    let m2_7_model = catalog
        .models
        .iter()
        .find(|model| model.slug == "MiniMax-M2.7")
        .expect("Catalog should include MiniMax-M2.7");
    assert_eq!(m2_7_model.context_window, Some(200_000));
}

#[test]
fn m2_5_has_100k_context_window() {
    let catalog = static_model_catalog();
    let m2_5_model = catalog
        .models
        .iter()
        .find(|model| model.slug == "MiniMax-M2.5")
        .expect("Catalog should include MiniMax-M2.5");
    assert_eq!(m2_5_model.context_window, Some(100_000));
}

#[test]
fn highspeed_models_have_expected_priorities() {
    let catalog = static_model_catalog();
    let highspeed_models: Vec<_> = catalog
        .models
        .iter()
        .filter(|model| model.slug.contains("highspeed"))
        .collect();
    assert_eq!(highspeed_models.len(), 3);
    let priorities: Vec<i32> = highspeed_models.iter().map(|m| m.priority).collect();
    assert!(priorities.contains(&1), "M3-highspeed should be priority 1, got {priorities:?}");
    assert!(priorities.contains(&3), "M2.7-highspeed should be priority 3, got {priorities:?}");
    assert!(priorities.contains(&5), "M2.5-highspeed should be priority 5, got {priorities:?}");
}

#[test]
fn minimax_provider_reports_api_key_account_state() {
    let provider = provider();
    assert_eq!(
        provider.account_state().unwrap(),
        ProviderAccountState {
            account: Some(ProviderAccount::ApiKey),
            requires_openai_auth: false,
        },
    );
}

#[test]
fn minimax_provider_uses_command_auth_manager_when_provided() {
    let provider = provider();
    assert!(
        provider.auth_manager().is_none(),
        "with no auth_manager handed in, the provider should expose none"
    );
    let auth = Arc::new(AuthManager {
        api_key: "test-key".to_string(),
    });
    let provider2 = MinimaxModelProvider::new(info(), Some(auth));
    let am = provider2
        .auth_manager()
        .expect("provider must expose the auth manager we handed in");
    assert_eq!(am.api_key, "test-key");
    assert_eq!(provider2.info().name, "minimax");
    assert_eq!(
        provider2.info().base_url.as_deref(),
        Some("https://api.minimax.io/v1")
    );
}

#[test]
fn static_catalog_includes_m3_with_image_modality() {
    let catalog = static_model_catalog();
    let m3 = catalog
        .models
        .iter()
        .find(|m| m.slug == "MiniMax-M3")
        .expect("MiniMax-M3 should be in the static catalog");
    assert!(
        m3.input_modalities.contains(&InputModality::Image),
        "MiniMax-M3 must declare Image input modality"
    );
    assert!(
        m3.input_modalities.contains(&InputModality::Text),
        "MiniMax-M3 must declare Text input modality"
    );
}

#[test]
fn entries_are_complete() {
    let catalog = static_model_catalog();
    let last = &catalog.models[5];
    assert_eq!(last.slug, "MiniMax-M2.5-highspeed");
    assert_eq!(last.display_name, "MiniMax M2.5 (High Speed)");
    assert_eq!(
        last.description.as_deref(),
        Some("MiniMax model - 100k context window")
    );
    assert_eq!(last.default_reasoning_level, Some(ReasoningEffort::Medium));
    assert_eq!(last.supported_reasoning_levels.len(), 3);
    assert_eq!(
        last.supported_reasoning_levels[2].description,
        "Greater reasoning depth for complex problems"
    );
    assert_eq!(last.truncation_policy, TruncationPolicyConfig::Tokens(10_000));
    assert_eq!(last.effective_context_window_percent, 95);
    assert_eq!(last.base_instructions, "");
}

#[test]
fn windows_are_described_in_whole_thousands() {
    let described = |window: i64| {
        minimax_model("s", "S", 0, window, ReasoningEffort::Low, &[])
            .description
            .expect("described")
    };
    assert_eq!(described(1_999), "MiniMax model - 1k context window");
    assert_eq!(described(0), "MiniMax model - 0k context window");
    assert_eq!(described(-999), "MiniMax model - 0k context window");
    assert_eq!(described(-1_500), "MiniMax model - -1k context window");
    assert_eq!(
        described(i64::MIN),
        "MiniMax model - -9223372036854775k context window"
    );
}

#[test]
fn efforts_are_described() {
    assert_eq!(
        reasoning_effort_preset(ReasoningEffort::NoReasoning).description,
        "No reasoning"
    );
    assert_eq!(
        reasoning_effort_preset(ReasoningEffort::Custom("x".to_string())).description,
        "Model-specific reasoning effort"
    );
}

#[test]
fn a_configured_catalog_wins() {
    let provider = provider();
    let configured = ModelsResponse { models: Vec::new() };
    assert_eq!(
        provider.models_manager(Some(configured)),
        OfferedCatalog::Configured(ModelsResponse { models: Vec::new() })
    );
    assert_eq!(
        provider.models_manager(Some("any other catalog")),
        OfferedCatalog::Configured("any other catalog")
    );
    assert_eq!(
        provider.models_manager(None::<ModelsResponse>),
        OfferedCatalog::Bundled(static_model_catalog())
    );
}
