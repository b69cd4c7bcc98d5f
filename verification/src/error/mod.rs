//! Error types, decisions and the metadata that accompanies them.

use vstd::prelude::*;

use crate::text::concat_str;

pub mod abstraction;

verus! {

/// Errors reported by storage backends.
#[derive(Debug, Clone, PartialEq, Eq)]
pub enum StorageError {
    ConnectionError(String),
    QueryError(String),
    TimeoutError(String),
    NotFound(String),
    AuthenticationError(String),
    PermissionError(String),
    InvalidConfig(String),
    RateLimitError(String),
    ValidationError(String),
}

impl StorageError {
    /// The message carried by every variant.
    pub open spec fn message_of(&self) -> Seq<char> {
        match self {
            StorageError::ConnectionError(m) => m@,
            StorageError::QueryError(m) => m@,
            StorageError::TimeoutError(m) => m@,
            StorageError::NotFound(m) => m@,
            StorageError::AuthenticationError(m) => m@,
            StorageError::PermissionError(m) => m@,
            StorageError::InvalidConfig(m) => m@,
            StorageError::RateLimitError(m) => m@,
            StorageError::ValidationError(m) => m@,
        }
    }

    /// The English prefix that the display text starts with.
    pub open spec fn spec_prefix(&self) -> Seq<char> {
        match self {
            StorageError::ConnectionError(_) => "Connection error: "@,
            StorageError::QueryError(_) => "Query error: "@,
            StorageError::TimeoutError(_) => "Timeout error: "@,
            StorageError::NotFound(_) => "Not found: "@,
            StorageError::AuthenticationError(_) => "Authentication error: "@,
            StorageError::PermissionError(_) => "Permission error: "@,
            StorageError::InvalidConfig(_) => "Invalid configuration: "@,
            StorageError::RateLimitError(_) => "Rate limit: "@,
            StorageError::ValidationError(_) => "Validation error: "@,
        }
    }

    /// Display text: the prefix followed by the message.
    pub open spec fn spec_text(&self) -> Seq<char> {
        self.spec_prefix() + self.message_of()
    }

    /// Transient failures, which a retry may overcome.
    pub open spec fn spec_is_transient(&self) -> bool {
        self is TimeoutError || self is ConnectionError || self is RateLimitError
    }

    /// Permanent failures, which a retry cannot overcome.
    pub open spec fn spec_is_permanent(&self) -> bool {
        self is AuthenticationError || self is PermissionError || self is InvalidConfig
    }

    /// Whether the error is transient (worth retrying).
    pub fn is_transient(&self) -> (r: bool)
        ensures
            r == self.spec_is_transient(),
    {
        match self {
            StorageError::TimeoutError(_) | StorageError::ConnectionError(_)
            | StorageError::RateLimitError(_) => true,
            _ => false,
        }
    }

    /// Whether the error is permanent (not worth retrying).
    pub fn is_permanent(&self) -> (r: bool)
        ensures
            r == self.spec_is_permanent(),
    {
        match self {
            StorageError::AuthenticationError(_) | StorageError::PermissionError(_)
            | StorageError::InvalidConfig(_) => true,
            _ => false,
        }
    }

    /// The English display text.
    pub fn to_string(&self) -> (r: String)
        ensures
            r@ == self.spec_text(),
    {
        match self {
            StorageError::ConnectionError(m) => concat_str("Connection error: ", m.as_str()),
            StorageError::QueryError(m) => concat_str("Query error: ", m.as_str()),
            StorageError::TimeoutError(m) => concat_str("Timeout error: ", m.as_str()),
            StorageError::NotFound(m) => concat_str("Not found: ", m.as_str()),
            StorageError::AuthenticationError(m) => concat_str("Authentication error: ", m.as_str()),
            StorageError::PermissionError(m) => concat_str("Permission error: ", m.as_str()),
            StorageError::InvalidConfig(m) => concat_str("Invalid configuration: ", m.as_str()),
            StorageError::RateLimitError(m) => concat_str("Rate limit: ", m.as_str()),
            StorageError::ValidationError(m) => concat_str("Validation error: ", m.as_str()),
        }
    }

    /// The message-catalogue key of the variant.
    pub fn message_key(&self) -> (r: &'static str)
        ensures
            r@ == self.spec_message_key(),
    {
        match self {
            StorageError::ConnectionError(_) => "error-storage-connection",
            StorageError::QueryError(_) => "error-storage-query",
            StorageError::TimeoutError(_) => "error-storage-timeout",
            StorageError::NotFound(_) => "error-storage-not-found",
            StorageError::AuthenticationError(_) => "error-storage-authentication",
            StorageError::PermissionError(_) => "error-storage-permission",
            StorageError::InvalidConfig(_) => "error-storage-invalid-config",
            StorageError::RateLimitError(_) => "error-storage-rate-limit",
            StorageError::ValidationError(_) => "error-storage-validation",
        }
    }

    /// The message-catalogue key of the variant.
    pub open spec fn spec_message_key(&self) -> Seq<char> {
        match self {
            StorageError::ConnectionError(_) => "error-storage-connection"@,
            StorageError::QueryError(_) => "error-storage-query"@,
            StorageError::TimeoutError(_) => "error-storage-timeout"@,
            StorageError::NotFound(_) => "error-storage-not-found"@,
            StorageError::AuthenticationError(_) => "error-storage-authentication"@,
            StorageError::PermissionError(_) => "error-storage-permission"@,
            StorageError::InvalidConfig(_) => "error-storage-invalid-config"@,
            StorageError::RateLimitError(_) => "error-storage-rate-limit"@,
            StorageError::ValidationError(_) => "error-storage-validation"@,
        }
    }

    /// The message itself.
    pub fn message(&self) -> (r: &String)
        ensures
            r@ == self.message_of(),
    {
        match self {
            StorageError::ConnectionError(m) => m,
            StorageError::QueryError(m) => m,
            StorageError::TimeoutError(m) => m,
            StorageError::NotFound(m) => m,
            StorageError::AuthenticationError(m) => m,
            StorageError::PermissionError(m) => m,
            StorageError::InvalidConfig(m) => m,
            StorageError::RateLimitError(m) => m,
            StorageError::ValidationError(m) => m,
        }
    }

    /// The arguments of the catalogue message: one `message` argument.
    pub fn message_args(&self) -> (r: Vec<(&'static str, String)>)
        ensures
            r@.len() == 1,
            r@[0].0@ == "message"@,
            r@[0].1@ == self.message_of(),
    {
        message_arg(self.message())
    }
}


/// State of a circuit breaker.
#[derive(Debug, Clone, Copy, PartialEq, Eq, Structural)]
pub enum CircuitState {
    /// Requests pass through.
    Closed,
    /// Requests are rejected.
    Open,
    /// A limited number of probe requests pass through.
    HalfOpen,
}

impl CircuitState {
    /// Display text of a state.
    pub open spec fn spec_text(self) -> Seq<char> {
        match self {
            CircuitState::Closed => "closed"@,
            CircuitState::Open => "open"@,
            CircuitState::HalfOpen => "half_open"@,
        }
    }

    /// Display text of the state: `closed`, `open` or `half_open`.
    pub fn to_string(&self) -> (r: String)
        ensures
            r@ == self.spec_text(),
    {
        match self {
            CircuitState::Closed => String::from_str("closed"),
            CircuitState::Open => String::from_str("open"),
            CircuitState::HalfOpen => String::from_str("half_open"),
        }
    }
}

/// Rate limit state as reported in standard response headers.
#[derive(Debug, Clone, PartialEq)]
pub struct RateLimitMetadata {
    /// The limit.
    pub limit: u64,
    /// What is left of it.
    pub remaining: u64,
    /// Unix time (seconds) at which the limit resets.
    pub reset_at: u64,
    /// Seconds to wait before retrying, when the limit is exceeded.
    pub retry_after: Option<u64>,
    /// Name of the limiting policy.
    pub policy: String,
}

impl RateLimitMetadata {
    /// Metadata with every number zero, no retry hint and an empty policy.
    pub fn default() -> (r: Self)
        ensures
            r.limit == 0,
            r.remaining == 0,
            r.reset_at == 0,
            r.retry_after is None,
            r.policy@ == Seq::<char>::empty(),
    {
        RateLimitMetadata { limit: 0, remaining: 0, reset_at: 0, retry_after: None, policy: String::new() }
    }
}

/// Why a request was rejected.
#[derive(Debug, Clone, PartialEq)]
pub struct RejectionMetadata {
    /// Human readable reason.
    pub reason: String,
    /// Seconds to wait before retrying.
    pub retry_after: u64,
    /// The limit that was hit.
    pub limit: u64,
    /// Unix time (seconds) at which the limit resets.
    pub reset_at: u64,
}

impl RejectionMetadata {
    /// Builds rejection metadata from its parts.
    pub fn new(reason: String, retry_after: u64, limit: u64, reset_at: u64) -> (r: Self)
        ensures
            r.reason == reason,
            r.retry_after == retry_after,
            r.limit == limit,
            r.reset_at == reset_at,
    {
        RejectionMetadata { reason, retry_after, limit, reset_at }
    }
}

/// A ban and how long it lasts.
#[derive(Debug, Clone, PartialEq)]
pub struct BanInfo {
    reason: String,
    banned_until: u64,
    ban_times: u32,
}

impl BanInfo {
    /// Reason of the ban.
    pub closed spec fn spec_reason(&self) -> Seq<char> {
        self.reason@
    }

    /// Unix time (seconds) at which the ban ends.
    pub closed spec fn spec_banned_until(&self) -> u64 {
        self.banned_until
    }

    /// How many times the target has been banned.
    pub closed spec fn spec_ban_times(&self) -> u32 {
        self.ban_times
    }

    /// Builds ban information.
    pub fn new(reason: String, banned_until: u64, ban_times: u32) -> (r: Self)
        ensures
            r.spec_reason() == reason@,
            r.spec_banned_until() == banned_until,
            r.spec_ban_times() == ban_times,
    {
        BanInfo { reason, banned_until, ban_times }
    }

    /// Reason of the ban.
    pub fn reason(&self) -> (r: &str)
        ensures
            r@ == self.spec_reason(),
    {
        self.reason.as_str()
    }

    /// Unix time (seconds) at which the ban ends.
    pub fn banned_until(&self) -> (r: u64)
        ensures
            r == self.spec_banned_until(),
    {
        self.banned_until
    }

    /// How many times the target has been banned.
    pub fn ban_times(&self) -> (r: u32)
        ensures
            r == self.spec_ban_times(),
    {
        self.ban_times
    }
}

/// Outcome of a limiting decision.
#[derive(Debug, Clone, PartialEq)]
pub enum Decision {
    /// Allowed, with the current limit state.
    Allowed(RateLimitMetadata),
    /// Rejected, with the reason.
    Rejected(RejectionMetadata),
    /// Banned.
    Banned(BanInfo),
}

impl Decision {
    /// An allowed decision with default metadata.
    pub fn allowed_default() -> (r: Self)
        ensures
            r matches Decision::Allowed(m) && m.limit == 0 && m.remaining == 0 && m.reset_at == 0
                && m.retry_after is None && m.policy@ == Seq::<char>::empty(),
    {
        Decision::Allowed(RateLimitMetadata::default())
    }

    /// An allowed decision.
    pub fn allowed(metadata: RateLimitMetadata) -> (r: Self)
        ensures
            r == Decision::Allowed(metadata),
    {
        Decision::Allowed(metadata)
    }

    /// A rejected decision.
    pub fn rejected(metadata: RejectionMetadata) -> (r: Self)
        ensures
            r == Decision::Rejected(metadata),
    {
        Decision::Rejected(metadata)
    }

    /// The limit metadata of an allowed or rejected decision; a rejection
    /// reports nothing remaining and its retry delay.
    pub fn rate_limit_metadata(&self) -> (r: Option<RateLimitMetadata>)
        ensures
            match self {
                Decision::Allowed(m) => r matches Some(x) && x.limit == m.limit && x.remaining
                    == m.remaining && x.reset_at == m.reset_at && x.retry_after == m.retry_after
                    && x.policy@ == m.policy@,
                Decision::Rejected(m) => r matches Some(x) && x.limit == m.limit && x.remaining
                    == 0 && x.reset_at == m.reset_at && x.retry_after == Some(m.retry_after)
                    && x.policy@ == Seq::<char>::empty(),
                Decision::Banned(_) => r is None,
            },
    {
        match self {
            Decision::Allowed(m) => Some(
                RateLimitMetadata {
                    limit: m.limit,
                    remaining: m.remaining,
                    reset_at: m.reset_at,
                    retry_after: m.retry_after,
                    policy: m.policy.clone(),
                },
            ),
            Decision::Rejected(m) => Some(
                RateLimitMetadata {
                    limit: m.limit,
                    remaining: 0,
                    reset_at: m.reset_at,
                    retry_after: Some(m.retry_after),
                    policy: String::new(),
                },
            ),
            Decision::Banned(_) => None,
        }
    }
}

/// Errors of the library.
#[derive(Debug, Clone, PartialEq)]
pub enum LimiteronError {
    ConfigError(String),
    StorageError(StorageError),
    LimitError(String),
    BanError(String),
    CircuitBreakerError(String),
    FallbackError(String),
    AuditLogError(String),
    AuthorizationError(String),
    IoError(String),
    SerdeError(String),
    YamlError(String),
    RateLimitExceeded(String),
    QuotaExceeded(String),
    ConcurrencyLimitExceeded(String),
    Throttled(String),
    ValidationError(String),
    LockError(String),
    TimeError(String),
    DependencyError(String),
    Other(String),
}

impl LimiteronError {
    /// Display text of an error.
    pub open spec fn spec_text(&self) -> Seq<char> {
        match self {
            LimiteronError::ConfigError(m) => "Configuration error: "@ + m@,
            LimiteronError::StorageError(e) => "Storage error: "@ + e.spec_text(),
            LimiteronError::LimitError(m) => "Rate limit error: "@ + m@,
            LimiteronError::BanError(m) => "Ban error: "@ + m@,
            LimiteronError::CircuitBreakerError(m) => "Circuit breaker error: "@ + m@,
            LimiteronError::FallbackError(m) => "Fallback error: "@ + m@,
            LimiteronError::AuditLogError(m) => "Audit log error: "@ + m@,
            LimiteronError::AuthorizationError(m) => "Authorization error: "@ + m@,
            LimiteronError::IoError(m) => "IO error: "@ + m@,
            LimiteronError::SerdeError(m) => "Serialization error: "@ + m@,
            LimiteronError::YamlError(m) => "YAML parse error: "@ + m@,
            LimiteronError::RateLimitExceeded(m) => "Rate limit exceeded: "@ + m@,
            LimiteronError::QuotaExceeded(m) => "Quota exceeded: "@ + m@,
            LimiteronError::ConcurrencyLimitExceeded(m) => "Concurrency limit exceeded: "@ + m@,
            LimiteronError::Throttled(m) => "Request throttled: "@ + m@,
            LimiteronError::ValidationError(m) => "Validation error: "@ + m@,
            LimiteronError::LockError(m) => "Lock acquisition error: "@ + m@,
            LimiteronError::TimeError(m) => "Time error: "@ + m@,
            LimiteronError::DependencyError(m) => "Missing dependency: "@ + m@,
            LimiteronError::Other(m) => "Unknown error: "@ + m@,
        }
    }

    /// English display text of the error.
    pub fn to_string(&self) -> (r: String)
        ensures
            r@ == self.spec_text(),
    {
        match self {
            LimiteronError::ConfigError(m) => concat_str("Configuration error: ", m.as_str()),
            LimiteronError::StorageError(e) => {
                let inner = e.to_string();
                concat_str("Storage error: ", inner.as_str())
            },
            LimiteronError::LimitError(m) => concat_str("Rate limit error: ", m.as_str()),
            LimiteronError::BanError(m) => concat_str("Ban error: ", m.as_str()),
            LimiteronError::CircuitBreakerError(m) => concat_str(
                "Circuit breaker error: ",
                m.as_str(),
            ),
            LimiteronError::FallbackError(m) => concat_str("Fallback error: ", m.as_str()),
            LimiteronError::AuditLogError(m) => concat_str("Audit log error: ", m.as_str()),
            LimiteronError::AuthorizationError(m) => concat_str(
                "Authorization error: ",
                m.as_str(),
            ),
            LimiteronError::IoError(m) => concat_str("IO error: ", m.as_str()),
            LimiteronError::SerdeError(m) => concat_str("Serialization error: ", m.as_str()),
            LimiteronError::YamlError(m) => concat_str("YAML parse error: ", m.as_str()),
            LimiteronError::RateLimitExceeded(m) => concat_str(
                "Rate limit exceeded: ",
                m.as_str(),
            ),
            LimiteronError::QuotaExceeded(m) => concat_str("Quota exceeded: ", m.as_str()),
            LimiteronError::ConcurrencyLimitExceeded(m) => concat_str(
                "Concurrency limit exceeded: ",
                m.as_str(),
            ),
            LimiteronError::Throttled(m) => concat_str("Request throttled: ", m.as_str()),
            LimiteronError::ValidationError(m) => concat_str("Validation error: ", m.as_str()),
            LimiteronError::LockError(m) => concat_str("Lock acquisition error: ", m.as_str()),
            LimiteronError::TimeError(m) => concat_str("Time error: ", m.as_str()),
            LimiteronError::DependencyError(m) => concat_str("Missing dependency: ", m.as_str()),
            LimiteronError::Other(m) => concat_str("Unknown error: ", m.as_str()),
        }
    }

    /// Wraps a storage error.
    pub fn from_storage(e: StorageError) -> (r: Self)
        ensures
            r == LimiteronError::StorageError(e),
    {
        LimiteronError::StorageError(e)
    }

    /// The message-catalogue key of an error.
    pub open spec fn spec_message_key(&self) -> Seq<char> {
        match self {
            LimiteronError::ConfigError(_) => "error-config"@,
            LimiteronError::StorageError(e) => e.spec_message_key(),
            LimiteronError::LimitError(_) => "error-limit"@,
            LimiteronError::BanError(_) => "error-ban"@,
            LimiteronError::CircuitBreakerError(_) => "error-circuit-breaker"@,
            LimiteronError::FallbackError(_) => "error-fallback"@,
            LimiteronError::AuditLogError(_) => "error-audit-log"@,
            LimiteronError::AuthorizationError(_) => "error-authorization"@,
            LimiteronError::IoError(_) => "error-io"@,
            LimiteronError::SerdeError(_) => "error-serde"@,
            LimiteronError::YamlError(_) => "error-yaml"@,
            LimiteronError::RateLimitExceeded(_) => "error-rate-limit-exceeded"@,
            LimiteronError::QuotaExceeded(_) => "error-quota-exceeded"@,
            LimiteronError::ConcurrencyLimitExceeded(_) => "error-concurrency-limit-exceeded"@,
            LimiteronError::Throttled(_) => "error-throttled"@,
            LimiteronError::ValidationError(_) => "error-validation"@,
            LimiteronError::LockError(_) => "error-lock"@,
            LimiteronError::TimeError(_) => "error-time"@,
            LimiteronError::DependencyError(_) => "error-dependency"@,
            LimiteronError::Other(_) => "error-other"@,
        }
    }

    /// The message an error carries; a wrapped storage error gives its own message.
    pub open spec fn message_of(&self) -> Seq<char> {
        match self {
            LimiteronError::StorageError(e) => e.message_of(),
            LimiteronError::ConfigError(m) => m@,
            LimiteronError::LimitError(m) => m@,
            LimiteronError::BanError(m) => m@,
            LimiteronError::CircuitBreakerError(m) => m@,
            LimiteronError::FallbackError(m) => m@,
            LimiteronError::AuditLogError(m) => m@,
            LimiteronError::AuthorizationError(m) => m@,
            LimiteronError::IoError(m) => m@,
            LimiteronError::SerdeError(m) => m@,
            LimiteronError::YamlError(m) => m@,
            LimiteronError::RateLimitExceeded(m) => m@,
            LimiteronError::QuotaExceeded(m) => m@,
            LimiteronError::ConcurrencyLimitExceeded(m) => m@,
            LimiteronError::Throttled(m) => m@,
            LimiteronError::ValidationError(m) => m@,
            LimiteronError::LockError(m) => m@,
            LimiteronError::TimeError(m) => m@,
            LimiteronError::DependencyError(m) => m@,
            LimiteronError::Other(m) => m@,
        }
    }

    /// The arguments of the catalogue message: one `message` argument.
    pub fn message_args(&self) -> (r: Vec<(&'static str, String)>)
        ensures
            r@.len() == 1,
            r@[0].0@ == "message"@,
            r@[0].1@ == self.message_of(),
    {
        match self {
            LimiteronError::StorageError(inner) => inner.message_args(),
            LimiteronError::ConfigError(m) | LimiteronError::LimitError(m)
            | LimiteronError::BanError(m) | LimiteronError::CircuitBreakerError(m)
            | LimiteronError::FallbackError(m) | LimiteronError::AuditLogError(m)
            | LimiteronError::AuthorizationError(m) | LimiteronError::IoError(m)
            | LimiteronError::SerdeError(m) | LimiteronError::YamlError(m)
            | LimiteronError::RateLimitExceeded(m) | LimiteronError::QuotaExceeded(m)
            | LimiteronError::ConcurrencyLimitExceeded(m) | LimiteronError::Throttled(m)
            | LimiteronError::ValidationError(m) | LimiteronError::LockError(m)
            | LimiteronError::TimeError(m) | LimiteronError::DependencyError(m)
            | LimiteronError::Other(m) => message_arg(m),
        }
    }

    /// The message-catalogue key; a wrapped storage error uses its own key.
    pub fn message_key(&self) -> (r: &'static str)
        ensures
            r@ == self.spec_message_key(),
    {
        proof {
            reveal_strlit("error-config");
            reveal_strlit("error-limit");
            reveal_strlit("error-ban");
            reveal_strlit("error-circuit-breaker");
            reveal_strlit("error-fallback");
            reveal_strlit("error-audit-log");
            reveal_strlit("error-authorization");
            reveal_strlit("error-io");
            reveal_strlit("error-serde");
            reveal_strlit("error-yaml");
            reveal_strlit("error-rate-limit-exceeded");
            reveal_strlit("error-quota-exceeded");
            reveal_strlit("error-concurrency-limit-exceeded");
            reveal_strlit("error-throttled");
            reveal_strlit("error-validation");
            reveal_strlit("error-lock");
            reveal_strlit("error-time");
            reveal_strlit("error-dependency");
            reveal_strlit("error-other");
        }
        match self {
            LimiteronError::ConfigError(_) => "error-config",
            LimiteronError::StorageError(inner) => inner.message_key(),
            LimiteronError::LimitError(_) => "error-limit",
            LimiteronError::BanError(_) => "error-ban",
            LimiteronError::CircuitBreakerError(_) => "error-circuit-breaker",
            LimiteronError::FallbackError(_) => "error-fallback",
            LimiteronError::AuditLogError(_) => "error-audit-log",
            LimiteronError::AuthorizationError(_) => "error-authorization",
            LimiteronError::IoError(_) => "error-io",
            LimiteronError::SerdeError(_) => "error-serde",
            LimiteronError::YamlError(_) => "error-yaml",
            LimiteronError::RateLimitExceeded(_) => "error-rate-limit-exceeded",
            LimiteronError::QuotaExceeded(_) => "error-quota-exceeded",
            LimiteronError::ConcurrencyLimitExceeded(_) => "error-concurrency-limit-exceeded",
            LimiteronError::Throttled(_) => "error-throttled",
            LimiteronError::ValidationError(_) => "error-validation",
            LimiteronError::LockError(_) => "error-lock",
            LimiteronError::TimeError(_) => "error-time",
            LimiteronError::DependencyError(_) => "error-dependency",
            LimiteronError::Other(_) => "error-other",
        }
    }
}

/// A one-entry argument list naming `message`.
fn message_arg(m: &String) -> (r: Vec<(&'static str, String)>)
    ensures
        r@.len() == 1,
        r@[0].0@ == "message"@,
        r@[0].1@ == m@,
{
    let mut v: Vec<(&'static str, String)> = Vec::new();
    v.push(("message", m.clone()));
    v
}

} // verus!
