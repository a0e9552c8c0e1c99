use server::config::{AppConfig, ConfigError};

#[test]
fn defaults_apply_when_nothing_is_set() {
    let c = AppConfig::from_values(None, None, None, None, None, None, None, None).unwrap();
    assert_eq!(c.server_port, 8080);
    assert_eq!(c.jwt_secret, "secret");
    assert_eq!(c.jwt_expiration, 86400);
    assert_eq!(c.google_client_id, "");
    assert_eq!(c.kakao_redirect_uri, "");
    assert_eq!(c.openai_api_key, "test-key");
}

#[test]
fn given_values_are_used() {
    let c = AppConfig::from_values(
        Some("3000"),
        Some("s3"),
        Some("60"),
        Some("g"),
        Some("gr"),
        Some("k"),
        Some("kr"),
        Some("key"),
    )
    .unwrap();
    assert_eq!(c.server_port, 3000);
    assert_eq!(c.jwt_secret, "s3");
    assert_eq!(c.jwt_expiration, 60);
    assert_eq!(c.google_client_id, "g");
    assert_eq!(c.google_redirect_uri, "gr");
    assert_eq!(c.kakao_client_id, "k");
    assert_eq!(c.kakao_redirect_uri, "kr");
    assert_eq!(c.openai_api_key, "key");
}

#[test]
fn bad_port_and_expiration_are_refused() {
    let port = AppConfig::from_values(Some("70000"), None, Some("x"), None, None, None, None, None);
    assert!(matches!(port, Err(ConfigError::InvalidPort)));
    let port = AppConfig::from_values(Some("http"), None, None, None, None, None, None, None);
    assert!(matches!(port, Err(ConfigError::InvalidPort)));
    let exp = AppConfig::from_values(None, None, Some("1d"), None, None, None, None, None);
    assert!(matches!(exp, Err(ConfigError::InvalidExpiration)));
    assert_eq!(ConfigError::InvalidPort.to_string(), "Invalid port number");
}
