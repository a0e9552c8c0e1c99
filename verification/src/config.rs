//! The server's settings, read from the values of its environment variables
//! with their defaults.
use vstd::prelude::*;
use crate::parse::{parse_i64, parse_i64_spec, parse_u32, parse_u32_spec};
use crate::text::owned;

verus! {

/// The server's settings.
#[derive(Debug, Clone)]
pub struct AppConfig {
    pub server_port: u16,
    pub jwt_secret: String,
    pub jwt_expiration: i64,
    pub google_client_id: String,
    pub google_redirect_uri: String,
    pub kakao_client_id: String,
    pub kakao_redirect_uri: String,
    pub openai_api_key: String,
}

/// Why settings cannot be read.
#[derive(Debug, Clone, Copy, PartialEq, Eq, Structural)]
pub enum ConfigError {
    InvalidPort,
    InvalidExpiration,
    MissingJwtSecret,
}

impl ConfigError {
    /// The error's message.
    pub fn to_string(&self) -> (r: String)
        ensures
            r@ == config_error_text(*self),
    {
        match self {
            ConfigError::InvalidPort => owned("Invalid port number"),
            ConfigError::InvalidExpiration => owned("Invalid expiration time"),
            ConfigError::MissingJwtSecret => owned("JWT_SECRET environment variable is required in production"),
        }
    }
}

pub open spec fn config_error_text(e: ConfigError) -> Seq<char> {
    match e {
        ConfigError::InvalidPort => "Invalid port number"@,
        ConfigError::InvalidExpiration => "Invalid expiration time"@,
        ConfigError::MissingJwtSecret => "JWT_SECRET environment variable is required in production"@,
    }
}

/// A variable's value, or a default where it is unset.
pub open spec fn or_default(v: Option<Seq<char>>, d: Seq<char>) -> Seq<char> {
    match v {
        Some(s) => s,
        None => d,
    }
}

/// The port a value names, as `parse::<u16>()` reads it (default `8080`).
pub open spec fn port_setting(v: Option<Seq<char>>) -> Option<u16> {
    match parse_u32_spec(or_default(v, "8080"@)) {
        Some(n) => if n <= 65535 { Some(n as u16) } else { None },
        None => None,
    }
}

/// The token lifetime a value names, as `parse::<i64>()` reads it (default
/// `86400`).
pub open spec fn expiration_setting(v: Option<Seq<char>>) -> Option<i64> {
    parse_i64_spec(or_default(v, "86400"@))
}

/// The view of an optional text.
pub open spec fn setting(v: Option<&str>) -> Option<Seq<char>> {
    match v {
        Some(s) => Some(s@),
        None => None,
    }
}

fn value_or(v: Option<&str>, d: &str) -> (r: String)
    ensures
        r@ == or_default(setting(v), d@),
{
    match v {
        Some(s) => owned(s),
        None => owned(d),
    }
}

impl AppConfig {
    /// Reads the settings from the values of `SERVER_PORT`, `JWT_SECRET`,
    /// `JWT_EXPIRATION`, `GOOGLE_CLIENT_ID`, `GOOGLE_REDIRECT_URI`,
    /// `KAKAO_CLIENT_ID`, `KAKAO_REDIRECT_URI` and `OPENAI_API_KEY` (`None`
    /// where a variable is unset). The port is checked first, then the
    /// lifetime; the secret defaults to `secret`, the key to `test-key`, the
    /// rest to empty text.
    pub fn from_values(
        server_port: Option<&str>,
        jwt_secret: Option<&str>,
        jwt_expiration: Option<&str>,
        google_client_id: Option<&str>,
        google_redirect_uri: Option<&str>,
        kakao_client_id: Option<&str>,
        kakao_redirect_uri: Option<&str>,
        openai_api_key: Option<&str>,
    ) -> (r: Result<AppConfig, ConfigError>)
        ensures
            port_setting(setting(server_port)) is None ==> r == Err::<AppConfig, ConfigError>(ConfigError::InvalidPort),
            port_setting(setting(server_port)) is Some && expiration_setting(setting(jwt_expiration)) is None
                ==> r == Err::<AppConfig, ConfigError>(ConfigError::InvalidExpiration),
            r is Ok <==> (port_setting(setting(server_port)) is Some && expiration_setting(setting(jwt_expiration)) is Some),
            r matches Ok(c) ==> {
                &&& Some(c.server_port) == port_setting(setting(server_port))
                &&& Some(c.jwt_expiration) == expiration_setting(setting(jwt_expiration))
                &&& c.jwt_secret@ == or_default(setting(jwt_secret), "secret"@)
                &&& c.google_client_id@ == or_default(setting(google_client_id), ""@)
                &&& c.google_redirect_uri@ == or_default(setting(google_redirect_uri), ""@)
                &&& c.kakao_client_id@ == or_default(setting(kakao_client_id), ""@)
                &&& c.kakao_redirect_uri@ == or_default(setting(kakao_redirect_uri), ""@)
                &&& c.openai_api_key@ == or_default(setting(openai_api_key), "test-key"@)
            },
    {
        let port_text = value_or(server_port, "8080");
        let port: u16 = match parse_u32(port_text.as_str()) {
            Some(n) => if n <= 65535 { n as u16 } else { return Err(ConfigError::InvalidPort) },
            None => return Err(ConfigError::InvalidPort),
        };
        let expiration_text = value_or(jwt_expiration, "86400");
        let expiration: i64 = match parse_i64(expiration_text.as_str()) {
            Some(n) => n,
            None => return Err(ConfigError::InvalidExpiration),
        };
        Ok(AppConfig {
            server_port: port,
            jwt_secret: value_or(jwt_secret, "secret"),
            jwt_expiration: expiration,
            google_client_id: value_or(google_client_id, ""),
            google_redirect_uri: value_or(google_redirect_uri, ""),
            kakao_client_id: value_or(kakao_client_id, ""),
            kakao_redirect_uri: value_or(kakao_redirect_uri, ""),
            openai_api_key: value_or(openai_api_key, "test-key"),
        })
    }
}

} // verus!
