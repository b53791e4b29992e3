use screen_ai_reader::config::AppState;
use screen_ai_reader::config::Config;
use screen_ai_reader::config::History;
use screen_ai_reader::config::HistoryEntry;
use screen_ai_reader::config::ModelMode;
use screen_ai_reader::provider::ModelProvider;
use screen_ai_reader::provider::OnlineProvider;
use screen_ai_reader::region::CaptureRegion;
use screen_ai_reader::region::region_from_points;

#[test]
fn default_config_points_at_the_local_backend() {
    let config = Config::default();
    assert_eq!(config.local_endpoint, "http://localhost:11434");
    assert_eq!(config.local_model, "llava");
    assert_eq!(config.openai_api_key, "");
    assert_eq!(config.openai_model, "gpt-4o");
    assert_eq!(config.claude_api_key, "");
    assert_eq!(config.claude_model, "sonnet-latest");
    assert!(config.use_local);
    assert!(config.default_prompt.starts_with("Beskriv"));
}

#[test]
fn default_provider_is_the_local_backend() {
    match ModelProvider::default() {
        ModelProvider::LocalEndpoint { url, model } => {
            assert_eq!(url, "http://localhost:11434");
            assert_eq!(model, "llava");
        }
        other => panic!("unexpected default {:?}", other),
    }
}

#[test]
fn initial_provider_follows_the_use_local_flag() {
    let mut config = Config::default();
    match config.initial_provider() {
        ModelProvider::LocalEndpoint { url, .. } => assert_eq!(url, "http://localhost:11434"),
        other => panic!("unexpected {:?}", other),
    }
    config.use_local = false;
    config.openai_api_key = String::from("sk");
    match config.initial_provider() {
        ModelProvider::OpenAiCompatible { base_url, api_key, model } => {
            assert_eq!(base_url, "https://api.openai.com");
            assert_eq!(api_key, "sk");
            assert_eq!(model, "gpt-4o");
        }
        other => panic!("unexpected {:?}", other),
    }
}

#[test]
fn online_mode_prefers_the_anthropic_key() {
    let mut config = Config::default();
    config.claude_api_key = String::from("ck");
    config.openai_api_key = String::from("ok");
    match config.provider_for_mode(&ModelMode::Online) {
        Some(ModelProvider::Anthropic { api_key, model }) => {
            assert_eq!(api_key, "ck");
            assert_eq!(model, "sonnet-latest");
        }
        other => panic!("unexpected {:?}", other),
    }
}

#[test]
fn online_mode_falls_back_to_the_openai_key() {
    let mut config = Config::default();
    config.openai_api_key = String::from("ok");
    match config.provider_for_mode(&ModelMode::Online) {
        Some(ModelProvider::OpenAiCompatible { api_key, .. }) => assert_eq!(api_key, "ok"),
        other => panic!("unexpected {:?}", other),
    }
}

#[test]
fn online_mode_without_keys_selects_nothing() {
    let config = Config::default();
    assert!(config.provider_for_mode(&ModelMode::Online).is_none());
    assert!(matches!(
        config.provider_for_mode(&ModelMode::Local),
        Some(ModelProvider::LocalEndpoint { .. })
    ));
}

#[test]
fn app_state_and_mode_defaults() {
    assert!(matches!(AppState::default(), AppState::Toolbox));
    assert!(matches!(ModelMode::default(), ModelMode::Local));
}

fn entry(tag: usize) -> HistoryEntry {
    HistoryEntry {
        timestamp: format!("{}", tag),
        prompt: String::from("p"),
        response: String::from("r"),
        image_preview: None,
    }
}

#[test]
fn history_keeps_at_most_fifty_entries() {
    let mut history = History::default();
    for i in 0..55 {
        history.add(entry(i));
    }
    assert_eq!(history.entries.len(), 50);
    assert_eq!(history.entries[0].timestamp, "5");
    assert_eq!(history.entries[49].timestamp, "54");
}

#[test]
fn history_below_the_cap_keeps_everything() {
    let mut history = History::default();
    for i in 0..3 {
        history.add(entry(i));
    }
    assert_eq!(history.entries.len(), 3);
    assert_eq!(history.entries[0].timestamp, "0");
}

#[test]
fn online_provider_base_urls() {
    assert_eq!(OnlineProvider::OpenAI.compat_base_url(), Some("https://api.openai.com"));
    assert_eq!(OnlineProvider::Groq.compat_base_url(), Some("https://api.groq.com/openai"));
    assert_eq!(OnlineProvider::Grok.compat_base_url(), Some("https://api.x.ai"));
    assert_eq!(OnlineProvider::Anthropic.compat_base_url(), None);
}

#[test]
fn online_provider_descriptors() {
    match OnlineProvider::Groq.descriptor(String::from("k"), String::from("m")) {
        ModelProvider::OpenAiCompatible { base_url, .. } => {
            assert_eq!(base_url, "https://api.groq.com/openai");
        }
        other => panic!("unexpected {:?}", other),
    }
    assert!(matches!(
        OnlineProvider::Anthropic.descriptor(String::from("k"), String::from("m")),
        ModelProvider::Anthropic { .. }
    ));
}

#[test]
fn drag_selection_spans_its_two_points() {
    let region: CaptureRegion = region_from_points(100, 40, 20, 200).unwrap();
    assert_eq!(region.x, 20);
    assert_eq!(region.y, 40);
    assert_eq!(region.width, 80);
    assert_eq!(region.height, 160);
}

#[test]
fn tiny_drag_selects_nothing() {
    assert!(region_from_points(0, 0, 10, 100).is_none());
    assert!(region_from_points(0, 0, 100, 10).is_none());
    assert!(region_from_points(5, 5, 5, 5).is_none());
    assert!(region_from_points(0, 0, 11, 11).is_some());
}

#[test]
fn drag_selection_handles_extreme_coordinates() {
    let region = region_from_points(i32::MIN, 0, i32::MAX, 100).unwrap();
    assert_eq!(region.x, i32::MIN);
    assert_eq!(region.width, u32::MAX);
    assert_eq!(region.height, 100);
}
