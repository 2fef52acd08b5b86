use agent_mcp::config::{
    load_agent_runtime, load_config, load_config_file, normalize_api_base_url,
    normalize_messages_url, require_api_key, save_config, validate_port, AgentRuntime, ConfigError,
    ConfigFile, SaveConfigPayload,
};

const ASSISTANT: &str = "Assistant";

/// The name of a model of the assistant.
fn model(version: &str) -> String {
    format!("assistant{version}")
}

fn payload(url: &str, key: Option<&str>, model: &str, port: u16) -> SaveConfigPayload {
    SaveConfigPayload {
        api_url: url.to_string(),
        api_key: key.map(|key| key.to_string()),
        model: model.to_string(),
        port,
        agent_runtime: None,
    }
}

#[test]
fn normalizes_root_url() {
    assert_eq!(
        normalize_messages_url("https://example.com").unwrap(),
        "https://example.com/v1/messages"
    );
}

#[test]
fn keeps_messages_url() {
    assert_eq!(
        normalize_messages_url("https://example.com/v1/messages").unwrap(),
        "https://example.com/v1/messages"
    );
}

#[test]
fn normalizes_api_base_url() {
    assert_eq!(
        normalize_api_base_url("https://example.com/v1/messages").unwrap(),
        "https://example.com"
    );
    assert_eq!(
        normalize_api_base_url("https://example.com").unwrap(),
        "https://example.com"
    );
}

#[test]
fn default_model_is_opus() {
    assert_eq!(ConfigFile::default_for(ASSISTANT).model, model("-opus-4-7"));
    assert_eq!(ConfigFile::default_for(ASSISTANT).agent_runtime, AgentRuntime::Sdk);
}

#[test]
fn migrates_legacy_default_models_to_opus() {
    for legacy_model in [model("-sonnet-4-7"), model("-sonnet-4-6")] {
        let stored = ConfigFile {
            api_url: "https://example.com".to_string(),
            model: legacy_model,
            port: 8765,
            agent_runtime: AgentRuntime::Sdk,
            api_key: None,
        };
        assert_eq!(load_config_file(Some(stored), ASSISTANT).model, model("-opus-4-7"));
    }
}

#[test]
fn rejects_tiny_port() {
    assert!(validate_port(80).is_err());
    assert!(validate_port(1023).is_err());
    assert!(validate_port(1024).is_ok());
    assert!(validate_port(65535).is_ok());
}

#[test]
fn saves_api_key_in_config_file_without_exposing_value() {
    let (file, saved) = save_config(
        payload(
            "https://example.com",
            Some("sk-local-secret"),
            &model("-opus-4-7"),
            8765,
        ),
        None,
        ASSISTANT,
    )
    .unwrap();

    assert!(saved.has_api_key);
    assert_eq!(file.api_key.as_deref(), Some("sk-local-secret"));
    assert!(!format!("{saved:?}").contains("sk-local-secret"));
}

#[test]
fn blank_api_key_preserves_saved_secret() {
    let mut first = payload(
        "https://example.com",
        Some("sk-existing"),
        &model("-opus-4-7"),
        8765,
    );
    first.agent_runtime = Some(AgentRuntime::Legacy);
    let (stored, _) = save_config(first, None, ASSISTANT).unwrap();
    let (file, saved) = save_config(
        payload("https://example.org", Some("  "), &model("-opus-4-7"), 8766),
        Some(stored),
        ASSISTANT,
    )
    .unwrap();

    assert!(saved.has_api_key);
    assert_eq!(saved.agent_runtime, AgentRuntime::Legacy);
    let file = load_config_file(Some(file), ASSISTANT);
    assert_eq!(file.api_key.as_deref(), Some("sk-existing"));
    assert_eq!(file.port, 8766);
    assert_eq!(file.agent_runtime, AgentRuntime::Legacy);
}

#[test]
fn missing_api_key_is_reported() {
    let file = ConfigFile::default_for(ASSISTANT);
    assert!(!file.has_api_key());
    assert_eq!(require_api_key(None, ASSISTANT).unwrap_err(), ConfigError::MissingKey);
}

#[test]
fn trailing_slashes_and_white_space_do_not_matter() {
    assert_eq!(
        normalize_messages_url("  http://localhost:3000///  ").unwrap(),
        "http://localhost:3000/v1/messages"
    );
    assert_eq!(
        normalize_api_base_url("https://example.com/v1/messages/").unwrap(),
        "https://example.com"
    );
}

#[test]
fn normalising_twice_is_normalising_once() {
    let once = normalize_messages_url("https://example.com/").unwrap();
    assert_eq!(normalize_messages_url(&once).unwrap(), once);
}

#[test]
fn a_root_and_its_full_address_agree() {
    assert_eq!(
        normalize_messages_url("https://a.b/proxy").unwrap(),
        normalize_messages_url("https://a.b/proxy/v1/messages").unwrap()
    );
    assert_eq!(
        normalize_api_base_url("https://a.b/proxy/v1/messages").unwrap(),
        "https://a.b/proxy"
    );
}

#[test]
fn each_refusal_has_its_message() {
    let refused = |url: &str, model: &str, port: u16| {
        save_config(payload(url, None, model, port), None, ASSISTANT).unwrap_err()
    };
    assert_eq!(refused("https://a", "m", 1), ConfigError::Port);
    assert_eq!(refused("   ", "m", 8765), ConfigError::EmptyUrl);
    assert_eq!(refused("///", "m", 8765), ConfigError::EmptyUrl);
    assert_eq!(refused("a.b", "m", 8765), ConfigError::UrlScheme);
    assert_eq!(refused("https://a", " ", 8765), ConfigError::EmptyModel);
    assert_eq!(
        ConfigError::Port.message(),
        "端口号需要是 1024~65535 之间的数字哦"
    );
    assert_eq!(ConfigError::EmptyUrl.message(), "API 地址不能为空");
    assert_eq!(
        ConfigError::UrlScheme.message(),
        "API 地址需要以 http:// 或 https:// 开头"
    );
    assert_eq!(ConfigError::EmptyModel.message(), "模型名称不能为空");
    assert_eq!(ConfigError::MissingKey.message(), "还没有填写密钥哦");
}

#[test]
fn what_is_saved_is_loaded() {
    let (file, shown) = save_config(
        payload(" https://a ", Some(" sk "), " model-x ", 9000),
        None,
        ASSISTANT,
    )
    .unwrap();
    assert_eq!(file.api_url, "https://a");
    assert_eq!(file.model, "model-x");
    let loaded = load_config(Some(file), ASSISTANT);
    assert_eq!(loaded.api_url, shown.api_url);
    assert_eq!(loaded.model, shown.model);
    assert_eq!(loaded.port, 9000);
    assert!(loaded.has_api_key);
    assert_eq!(load_agent_runtime(None, ASSISTANT), AgentRuntime::Sdk);
}
