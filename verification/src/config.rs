//! Configuration values consumed by the protection components.
//!
//! Loading them from the environment or from files is the surrounding
//! service's job; this module only defines the value types and their
//! built-in fallbacks.

use vstd::prelude::*;

verus! {

/// Cloudflare API credentials for the protected zone.
#[derive(Debug)]
pub struct CloudflareConfig {
    /// API token used to authenticate requests.
    pub api_token: String,
    /// Zone identifier of the protected domain.
    pub zone_id: String,
}

/// Connection settings for the remote counter store.
#[derive(Debug)]
pub struct RedisConfig {
    /// Connection URL of the store.
    pub url: String,
}

/// Settings for the distributed window rate counter.
#[derive(Debug, Clone, Copy)]
pub struct RateLimitConfig {
    /// Maximum number of requests allowed per period.
    pub max_requests: u32,
    /// Length of the counting period in seconds.
    pub period_seconds: u64,
}

/// Settings for the server shell that invokes the coordinator.
#[derive(Debug)]
pub struct ServerConfig {
    /// Host address to bind to.
    pub host: String,
    /// Port to listen on.
    pub port: u16,
}

/// The full configuration surface of the service.
#[derive(Debug)]
pub struct Settings {
    /// Cloudflare API configuration.
    pub cloudflare: CloudflareConfig,
    /// Counter store configuration.
    pub redis: RedisConfig,
    /// Window rate counter configuration.
    pub rate_limit: RateLimitConfig,
    /// Server shell configuration.
    pub server: ServerConfig,
}

impl Default for Settings {
    /// The fallback configuration used when no overrides are supplied.
    fn default() -> (s: Self)
        ensures
            s.cloudflare.api_token@ == Seq::<char>::empty(),
            s.cloudflare.zone_id@ == Seq::<char>::empty(),
            s.redis.url@ == "redis://localhost:6379"@,
            s.rate_limit.max_requests == 100,
            s.rate_limit.period_seconds == 60,
            s.server.host@ == "127.0.0.1"@,
            s.server.port == 3000,
    {
        Settings {
            cloudflare: CloudflareConfig { api_token: String::new(), zone_id: String::new() },
            redis: RedisConfig { url: String::from_str("redis://localhost:6379") },
            rate_limit: RateLimitConfig { max_requests: 100, period_seconds: 60 },
            server: ServerConfig { host: String::from_str("127.0.0.1"), port: 3000 },
        }
    }
}

} // verus!
