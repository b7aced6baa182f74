use llm_gateway::assoc::lookup_name;
use llm_gateway::config::{parse_port, Config, ConfigError, OutputFormat};

fn vars(pairs: &[(&str, &str)]) -> Vec<(String, String)> {
    pairs.iter().map(|(k, v)| (k.to_string(), v.to_string())).collect()
}

#[test]
fn env_without_proxy_key_leaves_the_gateway_open() {
    let c = Config::from_env_vars(&vars(&[
        ("PROXY_HOST", "127.0.0.1"),
        ("PROVIDER_LOCAL_BASE_URL", "http://localhost:11434/v1"),
        ("PROVIDER_LOCAL_API_KEY", "ollama-key"),
        ("PROVIDER_LOCAL_INPUT", "anthropic"),
    ]))
    .unwrap();
    assert_eq!(c.server.api_key, None);
    assert_eq!(c.server.host, "127.0.0.1");
    let local = lookup_name(&c.providers, "local").unwrap();
    assert_eq!(local.input.as_deref(), Some("anthropic"));
    assert_eq!(local.output, OutputFormat::OpenAiCompatible);
}

#[test]
fn env_defaults_and_providers() {
    let c = Config::from_env_vars(&vars(&[
        ("PROXY_API_KEY", "secret"),
        ("PROVIDER_OPENAI_BASE_URL", "https://api.example.com/v1"),
        ("PROVIDER_OPENAI_API_KEY", "k1"),
        ("PROVIDER_ANTHROPIC_BASE_URL", "https://other.example.com/v1"),
        ("PROVIDER_ANTHROPIC_API_KEY", "k2"),
        ("PROVIDER_ANTHROPIC_OUTPUT", "anthropic"),
        ("UNRELATED", "x"),
    ]))
    .unwrap();
    assert_eq!(c.server.host, "0.0.0.0");
    assert_eq!(c.server.port, 8888);
    assert_eq!(c.server.api_key.as_deref(), Some("secret"));
    assert_eq!(c.providers.len(), 2);
    let openai = lookup_name(&c.providers, "openai").unwrap();
    assert_eq!(openai.base_url, "https://api.example.com/v1");
    assert_eq!(openai.api_key, "k1");
    assert_eq!(openai.output, OutputFormat::OpenAiCompatible);
    let anthropic = lookup_name(&c.providers, "anthropic").unwrap();
    assert_eq!(anthropic.output, OutputFormat::Anthropic);
    assert_eq!(anthropic.api_key, "k2");
}

#[test]
fn env_port_and_host() {
    let c = Config::from_env_vars(&vars(&[("PROXY_API_KEY", "k"), ("PROXY_PORT", "9000"), ("PROXY_HOST", "::1")])).unwrap();
    assert_eq!(c.server.port, 9000);
    assert_eq!(c.server.host, "::1");
    let c = Config::from_env_vars(&vars(&[("PROXY_API_KEY", "k"), ("PROXY_PORT", "not-a-port")])).unwrap();
    assert_eq!(c.server.port, 8888);
    assert!(c.providers.is_empty());
}

#[test]
fn env_missing_provider_key_is_named() {
    let r = Config::from_env_vars(&vars(&[("PROXY_API_KEY", "k"), ("PROVIDER_ZAI_BASE_URL", "u")]));
    match r {
        Err(ConfigError::MissingVar(v)) => assert_eq!(v, "PROVIDER_ZAI_API_KEY"),
        _ => panic!("expected a missing variable"),
    }
}

#[test]
fn env_output_formats() {
    let c = Config::from_env_vars(&vars(&[
        ("PROXY_API_KEY", "k"),
        ("PROVIDER_OLLAMA_BASE_URL", "http://localhost:11434/api"),
        ("PROVIDER_OLLAMA_API_KEY", "ollama-api-key"),
        ("PROVIDER_OLLAMA_OUTPUT", "ollama"),
        ("PROVIDER_OTHER_BASE_URL", "http://o"),
        ("PROVIDER_OTHER_API_KEY", "o"),
        ("PROVIDER_OTHER_OUTPUT", "gemini"),
    ]))
    .unwrap();
    assert_eq!(lookup_name(&c.providers, "ollama").unwrap().output, OutputFormat::Ollama);
    assert_eq!(lookup_name(&c.providers, "other").unwrap().output, OutputFormat::OpenAiCompatible);
}

#[test]
fn port_parsing_follows_u16_parse() {
    for s in ["0", "8080", "+80", "65535", "00042"] {
        assert_eq!(parse_port(s), s.parse::<u16>().ok(), "{}", s);
    }
    for s in ["", "+", "65536", "-1", " 80", "8o", "99999999999"] {
        assert_eq!(parse_port(s), None, "{}", s);
    }
}
