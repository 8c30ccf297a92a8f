//! The settings of the command line: where the service is, who asks, and
//! how the cache is set up.

use vstd::prelude::*;

verus! {

/// Where the session service is reached unless the settings say otherwise.
pub const DEFAULT_JULES_API_BASE: &'static str = "https://jules.googleapis.com/v1alpha";

/// The settings.
#[derive(Debug, Clone)]
pub struct Config {
    pub api_key: Option<String>,
    pub api_url: Option<String>,
    pub default_owner: Option<String>,
    pub default_repo: Option<String>,
    pub cache: CacheConfig,
}

/// The settings of the cache.
#[derive(Debug, Clone)]
pub struct CacheConfig {
    pub enabled: bool,
    pub max_sessions: usize,
}

/// Whether activities are cached where the settings do not say.
pub fn default_cache_enabled() -> (r: bool)
    ensures
        r,
{
    true
}

/// How many sessions are cached where the settings do not say.
pub fn default_max_sessions() -> (r: usize)
    ensures
        r == 50,
{
    50
}

impl Default for CacheConfig {
    fn default() -> (r: Self)
        ensures
            r.enabled,
            r.max_sessions == 50,
    {
        CacheConfig { enabled: default_cache_enabled(), max_sessions: default_max_sessions() }
    }
}

impl Default for Config {
    fn default() -> (r: Self)
        ensures
            r.api_key is None,
            r.api_url is None,
            r.default_owner is None,
            r.default_repo is None,
            r.cache.enabled,
            r.cache.max_sessions == 50,
    {
        Config {
            api_key: None,
            api_url: None,
            default_owner: None,
            default_repo: None,
            cache: CacheConfig::default(),
        }
    }
}

/// No key for the service was given: none on the command line, none in the
/// environment, none in the settings.
#[derive(Debug, Clone, Copy, PartialEq, Eq, Structural)]
pub struct ApiKeyMissing;

/// The key for the service: the one from the command line where there is
/// one, else the one from the environment, else the one from the settings.
pub fn get_api_key(cli_key: Option<String>, env_key: Option<String>, config: &Config) -> (key: Result<
    String,
    ApiKeyMissing,
>)
    ensures
        match (cli_key, env_key, config.api_key) {
            (Some(k), _, _) => key == Ok::<String, ApiKeyMissing>(k),
            (None, Some(k), _) => key == Ok::<String, ApiKeyMissing>(k),
            (None, None, Some(k)) => key == Ok::<String, ApiKeyMissing>(k),
            (None, None, None) => key is Err,
        },
{
    if let Some(key) = cli_key {
        return Ok(key);
    }
    if let Some(key) = env_key {
        return Ok(key);
    }
    match &config.api_key {
        Some(key) => Ok(key.clone()),
        None => Err(ApiKeyMissing),
    }
}

} // verus!
