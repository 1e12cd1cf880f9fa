use model_gateway::config::{Config, Upstream};
use model_gateway::validation::validate_api_key;

fn test_config() -> Config {
    Config {
        listen: ":8000".to_string(),
        api_key: "test-key".to_string(),
        upstreams: vec![Upstream {
            name: "test".to_string(),
            openai_endpoint: "https://api.example.com/v1".to_string(),
            anthropic_endpoint: "https://api.example.com/anthropic".to_string(),
            key: "upstream-key".to_string(),
        }],
        postgres: None,
        clickhouse: None,
    }
}

#[test]
fn test_valid_api_key() {
    let config = test_config();
    let result = validate_api_key("Bearer test-key", &config);
    assert!(result.is_ok());
}

#[test]
fn test_invalid_api_key() {
    let config = test_config();
    let result = validate_api_key("Bearer wrong-key", &config);
    assert!(result.is_err());
}

#[test]
fn test_missing_api_key() {
    let config = test_config();
    let result = validate_api_key("", &config);
    assert!(result.is_err());
}

#[test]
fn test_case_insensitive_bearer() {
    let config = test_config();
    let result = validate_api_key("bearer test-key", &config);
    assert!(result.is_ok());
}

#[test]
fn bare_key_is_accepted() {
    let config = test_config();
    assert!(validate_api_key("test-key", &config).is_ok());
}

#[test]
fn refusals_are_unauthorized() {
    let config = test_config();
    assert_eq!(validate_api_key("Bearer ", &config).unwrap_err().as_u16(), 401);
    assert_eq!(validate_api_key("BEARER test-key", &config).unwrap_err().as_u16(), 401);
    assert_eq!(validate_api_key("Bearer test-key ", &config).unwrap_err().as_u16(), 401);
    assert_eq!(validate_api_key("", &config).unwrap_err().as_u16(), 401);
}
