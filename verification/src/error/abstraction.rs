//! Error messages that are safe to show: detailed errors are mapped to a
//! fixed set of messages that reveal nothing of the internals.

use vstd::prelude::*;

use crate::text::{has_substring, spec_to_lowercase, str_contains, to_lowercase};

verus! {

/// A message that is safe to show.
#[derive(Debug, Clone, Copy, PartialEq, Eq, Structural)]
pub enum SafeErrorMessage {
    ConfigError(ConfigSafeError),
    StorageError(StorageSafeError),
    LimitError(LimitSafeError),
    BanError(BanSafeError),
    ValidationError(ValidationSafeError),
    General(GeneralSafeError),
}

/// Problems with a configuration.
#[derive(Debug, Clone, Copy, PartialEq, Eq, Structural)]
pub enum ConfigSafeError {
    InvalidFormat,
    MissingRequiredField,
    DuplicateRuleId,
    InvalidStorageType,
    InvalidCacheType,
    InvalidMetricsType,
    InvalidVersion,
    RuleNotFound,
    InvalidLimiterConfig,
    InvalidMatcherConfig,
    ValueOutOfRange,
    MalformedPattern,
    SecurityRisk,
}

impl ConfigSafeError {
    /// The text of the message.
    pub open spec fn spec_text(self) -> Seq<char> {
        match self {
            ConfigSafeError::InvalidFormat => "Invalid configuration format"@,
            ConfigSafeError::MissingRequiredField => "Missing required field"@,
            ConfigSafeError::DuplicateRuleId => "Duplicate rule ID"@,
            ConfigSafeError::InvalidStorageType => "Invalid storage type"@,
            ConfigSafeError::InvalidCacheType => "Invalid cache type"@,
            ConfigSafeError::InvalidMetricsType => "Invalid metrics type"@,
            ConfigSafeError::InvalidVersion => "Invalid version"@,
            ConfigSafeError::RuleNotFound => "Rule not found"@,
            ConfigSafeError::InvalidLimiterConfig => "Invalid limiter configuration"@,
            ConfigSafeError::InvalidMatcherConfig => "Invalid matcher configuration"@,
            ConfigSafeError::ValueOutOfRange => "Value out of allowed range"@,
            ConfigSafeError::MalformedPattern => "Malformed pattern"@,
            ConfigSafeError::SecurityRisk => "Security risk detected"@,
        }
    }

    /// The key of the message in the message catalog.
    pub open spec fn spec_key(self) -> Seq<char> {
        match self {
            ConfigSafeError::InvalidFormat => "config-safe-invalid-format"@,
            ConfigSafeError::MissingRequiredField => "config-safe-missing-required-field"@,
            ConfigSafeError::DuplicateRuleId => "config-safe-duplicate-rule-id"@,
            ConfigSafeError::InvalidStorageType => "config-safe-invalid-storage-type"@,
            ConfigSafeError::InvalidCacheType => "config-safe-invalid-cache-type"@,
            ConfigSafeError::InvalidMetricsType => "config-safe-invalid-metrics-type"@,
            ConfigSafeError::InvalidVersion => "config-safe-invalid-version"@,
            ConfigSafeError::RuleNotFound => "config-safe-rule-not-found"@,
            ConfigSafeError::InvalidLimiterConfig => "config-safe-invalid-limiter-config"@,
            ConfigSafeError::InvalidMatcherConfig => "config-safe-invalid-matcher-config"@,
            ConfigSafeError::ValueOutOfRange => "config-safe-value-out-of-range"@,
            ConfigSafeError::MalformedPattern => "config-safe-malformed-pattern"@,
            ConfigSafeError::SecurityRisk => "config-safe-security-risk"@,
        }
    }

    /// The text of the message.
    pub fn text(&self) -> (r: &'static str)
        ensures
            r@ == self.spec_text(),
    {
        match self {
            ConfigSafeError::InvalidFormat => "Invalid configuration format",
            ConfigSafeError::MissingRequiredField => "Missing required field",
            ConfigSafeError::DuplicateRuleId => "Duplicate rule ID",
            ConfigSafeError::InvalidStorageType => "Invalid storage type",
            ConfigSafeError::InvalidCacheType => "Invalid cache type",
            ConfigSafeError::InvalidMetricsType => "Invalid metrics type",
            ConfigSafeError::InvalidVersion => "Invalid version",
            ConfigSafeError::RuleNotFound => "Rule not found",
            ConfigSafeError::InvalidLimiterConfig => "Invalid limiter configuration",
            ConfigSafeError::InvalidMatcherConfig => "Invalid matcher configuration",
            ConfigSafeError::ValueOutOfRange => "Value out of allowed range",
            ConfigSafeError::MalformedPattern => "Malformed pattern",
            ConfigSafeError::SecurityRisk => "Security risk detected",
        }
    }

    /// The text of the message, as an owned string.
    pub fn to_string(&self) -> (r: String)
        ensures
            r@ == self.spec_text(),
    {
        String::from_str(self.text())
    }

    /// The key of the message in the message catalog.
    pub fn message_key(&self) -> (r: &'static str)
        ensures
            r@ == self.spec_key(),
    {
        match self {
            ConfigSafeError::InvalidFormat => "config-safe-invalid-format",
            ConfigSafeError::MissingRequiredField => "config-safe-missing-required-field",
            ConfigSafeError::DuplicateRuleId => "config-safe-duplicate-rule-id",
            ConfigSafeError::InvalidStorageType => "config-safe-invalid-storage-type",
            ConfigSafeError::InvalidCacheType => "config-safe-invalid-cache-type",
            ConfigSafeError::InvalidMetricsType => "config-safe-invalid-metrics-type",
            ConfigSafeError::InvalidVersion => "config-safe-invalid-version",
            ConfigSafeError::RuleNotFound => "config-safe-rule-not-found",
            ConfigSafeError::InvalidLimiterConfig => "config-safe-invalid-limiter-config",
            ConfigSafeError::InvalidMatcherConfig => "config-safe-invalid-matcher-config",
            ConfigSafeError::ValueOutOfRange => "config-safe-value-out-of-range",
            ConfigSafeError::MalformedPattern => "config-safe-malformed-pattern",
            ConfigSafeError::SecurityRisk => "config-safe-security-risk",
        }
    }
}

/// Problems with storage.
#[derive(Debug, Clone, Copy, PartialEq, Eq, Structural)]
pub enum StorageSafeError {
    ConnectionFailed,
    QueryFailed,
    Timeout,
    NotFound,
    ConcurrentModification,
    StorageFull,
    InvalidDataFormat,
}

impl StorageSafeError {
    /// The text of the message.
    pub open spec fn spec_text(self) -> Seq<char> {
        match self {
            StorageSafeError::ConnectionFailed => "Connection failed"@,
            StorageSafeError::QueryFailed => "Query failed"@,
            StorageSafeError::Timeout => "Operation timed out"@,
            StorageSafeError::NotFound => "Record not found"@,
            StorageSafeError::ConcurrentModification => "Data was concurrently modified"@,
            StorageSafeError::StorageFull => "Storage full"@,
            StorageSafeError::InvalidDataFormat => "Invalid data format"@,
        }
    }

    /// The key of the message in the message catalog.
    pub open spec fn spec_key(self) -> Seq<char> {
        match self {
            StorageSafeError::ConnectionFailed => "storage-safe-connection-failed"@,
            StorageSafeError::QueryFailed => "storage-safe-query-failed"@,
            StorageSafeError::Timeout => "storage-safe-timeout"@,
            StorageSafeError::NotFound => "storage-safe-not-found"@,
            StorageSafeError::ConcurrentModification => "storage-safe-concurrent-modification"@,
            StorageSafeError::StorageFull => "storage-safe-storage-full"@,
            StorageSafeError::InvalidDataFormat => "storage-safe-invalid-data-format"@,
        }
    }

    /// The text of the message.
    pub fn text(&self) -> (r: &'static str)
        ensures
            r@ == self.spec_text(),
    {
        match self {
            StorageSafeError::ConnectionFailed => "Connection failed",
            StorageSafeError::QueryFailed => "Query failed",
            StorageSafeError::Timeout => "Operation timed out",
            StorageSafeError::NotFound => "Record not found",
            StorageSafeError::ConcurrentModification => "Data was concurrently modified",
            StorageSafeError::StorageFull => "Storage full",
            StorageSafeError::InvalidDataFormat => "Invalid data format",
        }
    }

    /// The text of the message, as an owned string.
    pub fn to_string(&self) -> (r: String)
        ensures
            r@ == self.spec_text(),
    {
        String::from_str(self.text())
    }

    /// The key of the message in the message catalog.
    pub fn message_key(&self) -> (r: &'static str)
        ensures
            r@ == self.spec_key(),
    {
        match self {
            StorageSafeError::ConnectionFailed => "storage-safe-connection-failed",
            StorageSafeError::QueryFailed => "storage-safe-query-failed",
            StorageSafeError::Timeout => "storage-safe-timeout",
            StorageSafeError::NotFound => "storage-safe-not-found",
            StorageSafeError::ConcurrentModification => "storage-safe-concurrent-modification",
            StorageSafeError::StorageFull => "storage-safe-storage-full",
            StorageSafeError::InvalidDataFormat => "storage-safe-invalid-data-format",
        }
    }
}

/// Limits that were hit.
#[derive(Debug, Clone, Copy, PartialEq, Eq, Structural)]
pub enum LimitSafeError {
    RateLimitExceeded,
    QuotaExceeded,
    ConcurrencyLimitExceeded,
    TokenBucketEmpty,
    WindowFull,
    TooManyRequests,
}

impl LimitSafeError {
    /// The text of the message.
    pub open spec fn spec_text(self) -> Seq<char> {
        match self {
            LimitSafeError::RateLimitExceeded => "Request rate exceeded"@,
            LimitSafeError::QuotaExceeded => "Quota exhausted"@,
            LimitSafeError::ConcurrencyLimitExceeded => "Concurrency limit exceeded"@,
            LimitSafeError::TokenBucketEmpty => "Tokens exhausted"@,
            LimitSafeError::WindowFull => "Time window is full"@,
            LimitSafeError::TooManyRequests => "Too many requests"@,
        }
    }

    /// The key of the message in the message catalog.
    pub open spec fn spec_key(self) -> Seq<char> {
        match self {
            LimitSafeError::RateLimitExceeded => "limit-safe-rate-limit-exceeded"@,
            LimitSafeError::QuotaExceeded => "limit-safe-quota-exceeded"@,
            LimitSafeError::ConcurrencyLimitExceeded => "limit-safe-concurrency-exceeded"@,
            LimitSafeError::TokenBucketEmpty => "limit-safe-token-bucket-empty"@,
            LimitSafeError::WindowFull => "limit-safe-window-full"@,
            LimitSafeError::TooManyRequests => "limit-safe-too-many-requests"@,
        }
    }

    /// The text of the message.
    pub fn text(&self) -> (r: &'static str)
        ensures
            r@ == self.spec_text(),
    {
        match self {
            LimitSafeError::RateLimitExceeded => "Request rate exceeded",
            LimitSafeError::QuotaExceeded => "Quota exhausted",
            LimitSafeError::ConcurrencyLimitExceeded => "Concurrency limit exceeded",
            LimitSafeError::TokenBucketEmpty => "Tokens exhausted",
            LimitSafeError::WindowFull => "Time window is full",
            LimitSafeError::TooManyRequests => "Too many requests",
        }
    }

    /// The text of the message, as an owned string.
    pub fn to_string(&self) -> (r: String)
        ensures
            r@ == self.spec_text(),
    {
        String::from_str(self.text())
    }

    /// The key of the message in the message catalog.
    pub fn message_key(&self) -> (r: &'static str)
        ensures
            r@ == self.spec_key(),
    {
        match self {
            LimitSafeError::RateLimitExceeded => "limit-safe-rate-limit-exceeded",
            LimitSafeError::QuotaExceeded => "limit-safe-quota-exceeded",
            LimitSafeError::ConcurrencyLimitExceeded => "limit-safe-concurrency-exceeded",
            LimitSafeError::TokenBucketEmpty => "limit-safe-token-bucket-empty",
            LimitSafeError::WindowFull => "limit-safe-window-full",
            LimitSafeError::TooManyRequests => "limit-safe-too-many-requests",
        }
    }
}

/// Reasons for a ban.
#[derive(Debug, Clone, Copy, PartialEq, Eq, Structural)]
pub enum BanSafeError {
    UserBanned,
    IpBanned,
    DeviceBanned,
    RateExceeded,
    SpamDetected,
    SecurityViolation,
}

impl BanSafeError {
    /// The text of the message.
    pub open spec fn spec_text(self) -> Seq<char> {
        match self {
            BanSafeError::UserBanned => "User is banned"@,
            BanSafeError::IpBanned => "IP address is banned"@,
            BanSafeError::DeviceBanned => "Device is banned"@,
            BanSafeError::RateExceeded => "Request rate exceeded"@,
            BanSafeError::SpamDetected => "Suspicious behavior detected"@,
            BanSafeError::SecurityViolation => "Security check failed"@,
        }
    }

    /// The key of the message in the message catalog.
    pub open spec fn spec_key(self) -> Seq<char> {
        match self {
            BanSafeError::UserBanned => "ban-safe-user-banned"@,
            BanSafeError::IpBanned => "ban-safe-ip-banned"@,
            BanSafeError::DeviceBanned => "ban-safe-device-banned"@,
            BanSafeError::RateExceeded => "ban-safe-rate-exceeded"@,
            BanSafeError::SpamDetected => "ban-safe-spam-detected"@,
            BanSafeError::SecurityViolation => "ban-safe-security-violation"@,
        }
    }

    /// The text of the message.
    pub fn text(&self) -> (r: &'static str)
        ensures
            r@ == self.spec_text(),
    {
        match self {
            BanSafeError::UserBanned => "User is banned",
            BanSafeError::IpBanned => "IP address is banned",
            BanSafeError::DeviceBanned => "Device is banned",
            BanSafeError::RateExceeded => "Request rate exceeded",
            BanSafeError::SpamDetected => "Suspicious behavior detected",
            BanSafeError::SecurityViolation => "Security check failed",
        }
    }

    /// The text of the message, as an owned string.
    pub fn to_string(&self) -> (r: String)
        ensures
            r@ == self.spec_text(),
    {
        String::from_str(self.text())
    }

    /// The key of the message in the message catalog.
    pub fn message_key(&self) -> (r: &'static str)
        ensures
            r@ == self.spec_key(),
    {
        match self {
            BanSafeError::UserBanned => "ban-safe-user-banned",
            BanSafeError::IpBanned => "ban-safe-ip-banned",
            BanSafeError::DeviceBanned => "ban-safe-device-banned",
            BanSafeError::RateExceeded => "ban-safe-rate-exceeded",
            BanSafeError::SpamDetected => "ban-safe-spam-detected",
            BanSafeError::SecurityViolation => "ban-safe-security-violation",
        }
    }
}

/// Problems with input.
#[derive(Debug, Clone, Copy, PartialEq, Eq, Structural)]
pub enum ValidationSafeError {
    InvalidInput,
    MalformedData,
    SecurityCheckFailed,
    InputTooLong,
    InvalidFormat,
    SuspiciousPattern,
}

impl ValidationSafeError {
    /// The text of the message.
    pub open spec fn spec_text(self) -> Seq<char> {
        match self {
            ValidationSafeError::InvalidInput => "Invalid input"@,
            ValidationSafeError::MalformedData => "Malformed data"@,
            ValidationSafeError::SecurityCheckFailed => "Security check failed"@,
            ValidationSafeError::InputTooLong => "Input too long"@,
            ValidationSafeError::InvalidFormat => "Invalid format"@,
            ValidationSafeError::SuspiciousPattern => "Suspicious pattern detected"@,
        }
    }

    /// The key of the message in the message catalog.
    pub open spec fn spec_key(self) -> Seq<char> {
        match self {
            ValidationSafeError::InvalidInput => "validation-safe-invalid-input"@,
            ValidationSafeError::MalformedData => "validation-safe-malformed-data"@,
            ValidationSafeError::SecurityCheckFailed => "validation-safe-security-check-failed"@,
            ValidationSafeError::InputTooLong => "validation-safe-input-too-long"@,
            ValidationSafeError::InvalidFormat => "validation-safe-invalid-format"@,
            ValidationSafeError::SuspiciousPattern => "validation-safe-suspicious-pattern"@,
        }
    }

    /// The text of the message.
    pub fn text(&self) -> (r: &'static str)
        ensures
            r@ == self.spec_text(),
    {
        match self {
            ValidationSafeError::InvalidInput => "Invalid input",
            ValidationSafeError::MalformedData => "Malformed data",
            ValidationSafeError::SecurityCheckFailed => "Security check failed",
            ValidationSafeError::InputTooLong => "Input too long",
            ValidationSafeError::InvalidFormat => "Invalid format",
            ValidationSafeError::SuspiciousPattern => "Suspicious pattern detected",
        }
    }

    /// The text of the message, as an owned string.
    pub fn to_string(&self) -> (r: String)
        ensures
            r@ == self.spec_text(),
    {
        String::from_str(self.text())
    }

    /// The key of the message in the message catalog.
    pub fn message_key(&self) -> (r: &'static str)
        ensures
            r@ == self.spec_key(),
    {
        match self {
            ValidationSafeError::InvalidInput => "validation-safe-invalid-input",
            ValidationSafeError::MalformedData => "validation-safe-malformed-data",
            ValidationSafeError::SecurityCheckFailed => "validation-safe-security-check-failed",
            ValidationSafeError::InputTooLong => "validation-safe-input-too-long",
            ValidationSafeError::InvalidFormat => "validation-safe-invalid-format",
            ValidationSafeError::SuspiciousPattern => "validation-safe-suspicious-pattern",
        }
    }
}

/// Other problems.
#[derive(Debug, Clone, Copy, PartialEq, Eq, Structural)]
pub enum GeneralSafeError {
    InternalError,
    ServiceUnavailable,
    InvalidRequest,
    Unauthorized,
    Forbidden,
    RateLimited,
}

impl GeneralSafeError {
    /// The text of the message.
    pub open spec fn spec_text(self) -> Seq<char> {
        match self {
            GeneralSafeError::InternalError => "Internal error"@,
            GeneralSafeError::ServiceUnavailable => "Service unavailable"@,
            GeneralSafeError::InvalidRequest => "Invalid request"@,
            GeneralSafeError::Unauthorized => "Unauthorized"@,
            GeneralSafeError::Forbidden => "Forbidden"@,
            GeneralSafeError::RateLimited => "Rate limited"@,
        }
    }

    /// The key of the message in the message catalog.
    pub open spec fn spec_key(self) -> Seq<char> {
        match self {
            GeneralSafeError::InternalError => "general-safe-internal-error"@,
            GeneralSafeError::ServiceUnavailable => "general-safe-service-unavailable"@,
            GeneralSafeError::InvalidRequest => "general-safe-invalid-request"@,
            GeneralSafeError::Unauthorized => "general-safe-unauthorized"@,
            GeneralSafeError::Forbidden => "general-safe-forbidden"@,
            GeneralSafeError::RateLimited => "general-safe-rate-limited"@,
        }
    }

    /// The text of the message.
    pub fn text(&self) -> (r: &'static str)
        ensures
            r@ == self.spec_text(),
    {
        match self {
            GeneralSafeError::InternalError => "Internal error",
            GeneralSafeError::ServiceUnavailable => "Service unavailable",
            GeneralSafeError::InvalidRequest => "Invalid request",
            GeneralSafeError::Unauthorized => "Unauthorized",
            GeneralSafeError::Forbidden => "Forbidden",
            GeneralSafeError::RateLimited => "Rate limited",
        }
    }

    /// The text of the message, as an owned string.
    pub fn to_string(&self) -> (r: String)
        ensures
            r@ == self.spec_text(),
    {
        String::from_str(self.text())
    }

    /// The key of the message in the message catalog.
    pub fn message_key(&self) -> (r: &'static str)
        ensures
            r@ == self.spec_key(),
    {
        match self {
            GeneralSafeError::InternalError => "general-safe-internal-error",
            GeneralSafeError::ServiceUnavailable => "general-safe-service-unavailable",
            GeneralSafeError::InvalidRequest => "general-safe-invalid-request",
            GeneralSafeError::Unauthorized => "general-safe-unauthorized",
            GeneralSafeError::Forbidden => "general-safe-forbidden",
            GeneralSafeError::RateLimited => "general-safe-rate-limited",
        }
    }
}

impl SafeErrorMessage {
    /// The text of the message: a kind label, then the inner message.
    pub open spec fn spec_text(self) -> Seq<char> {
        match self {
            SafeErrorMessage::ConfigError(e) => "Configuration error: "@ + e.spec_text(),
            SafeErrorMessage::StorageError(e) => "Storage error: "@ + e.spec_text(),
            SafeErrorMessage::LimitError(e) => "Rate limit error: "@ + e.spec_text(),
            SafeErrorMessage::BanError(e) => "Ban error: "@ + e.spec_text(),
            SafeErrorMessage::ValidationError(e) => "Validation error: "@ + e.spec_text(),
            SafeErrorMessage::General(e) => "Error: "@ + e.spec_text(),
        }
    }

    /// The key of the message in the message catalog.
    pub open spec fn spec_key(self) -> Seq<char> {
        match self {
            SafeErrorMessage::ConfigError(_) => "safe-error-config"@,
            SafeErrorMessage::StorageError(_) => "safe-error-storage"@,
            SafeErrorMessage::LimitError(_) => "safe-error-limit"@,
            SafeErrorMessage::BanError(_) => "safe-error-ban"@,
            SafeErrorMessage::ValidationError(_) => "safe-error-validation"@,
            SafeErrorMessage::General(_) => "safe-error-general"@,
        }
    }

    /// The key of the inner message.
    pub open spec fn spec_inner_key(self) -> Seq<char> {
        match self {
            SafeErrorMessage::ConfigError(e) => e.spec_key(),
            SafeErrorMessage::StorageError(e) => e.spec_key(),
            SafeErrorMessage::LimitError(e) => e.spec_key(),
            SafeErrorMessage::BanError(e) => e.spec_key(),
            SafeErrorMessage::ValidationError(e) => e.spec_key(),
            SafeErrorMessage::General(e) => e.spec_key(),
        }
    }

    /// The text of the message.
    pub fn to_string(&self) -> (r: String)
        ensures
            r@ == self.spec_text(),
    {
        let (label, inner) = match self {
            SafeErrorMessage::ConfigError(e) => ("Configuration error: ", e.text()),
            SafeErrorMessage::StorageError(e) => ("Storage error: ", e.text()),
            SafeErrorMessage::LimitError(e) => ("Rate limit error: ", e.text()),
            SafeErrorMessage::BanError(e) => ("Ban error: ", e.text()),
            SafeErrorMessage::ValidationError(e) => ("Validation error: ", e.text()),
            SafeErrorMessage::General(e) => ("Error: ", e.text()),
        };
        crate::text::concat_str(label, inner)
    }

    /// The key of the message in the message catalog.
    pub fn message_key(&self) -> (r: &'static str)
        ensures
            r@ == self.spec_key(),
    {
        match self {
            SafeErrorMessage::ConfigError(_) => "safe-error-config",
            SafeErrorMessage::StorageError(_) => "safe-error-storage",
            SafeErrorMessage::LimitError(_) => "safe-error-limit",
            SafeErrorMessage::BanError(_) => "safe-error-ban",
            SafeErrorMessage::ValidationError(_) => "safe-error-validation",
            SafeErrorMessage::General(_) => "safe-error-general",
        }
    }

    /// The key of the inner message, which the catalog renders as the
    /// `message` argument of the outer one.
    pub fn inner_message_key(&self) -> (r: &'static str)
        ensures
            r@ == self.spec_inner_key(),
    {
        match self {
            SafeErrorMessage::ConfigError(e) => e.message_key(),
            SafeErrorMessage::StorageError(e) => e.message_key(),
            SafeErrorMessage::LimitError(e) => e.message_key(),
            SafeErrorMessage::BanError(e) => e.message_key(),
            SafeErrorMessage::ValidationError(e) => e.message_key(),
            SafeErrorMessage::General(e) => e.message_key(),
        }
    }
}

/// Maps detailed errors to safe messages.
pub struct ErrorMessageAbstraction;

/// The safe message for a detailed storage error.
pub open spec fn spec_abstract_storage_error(s: Seq<char>) -> SafeErrorMessage {
    let l = spec_to_lowercase(s);
    if has_substring(l, "connection"@) || has_substring(l, "connect"@) {
        SafeErrorMessage::StorageError(StorageSafeError::ConnectionFailed)
    } else if has_substring(l, "timeout"@) || has_substring(l, "timed out"@) {
        SafeErrorMessage::StorageError(StorageSafeError::Timeout)
    } else if has_substring(l, "not found"@) {
        SafeErrorMessage::StorageError(StorageSafeError::NotFound)
    } else if has_substring(l, "duplicate"@) {
        SafeErrorMessage::StorageError(StorageSafeError::ConcurrentModification)
    } else {
        SafeErrorMessage::StorageError(StorageSafeError::QueryFailed)
    }
}

/// The safe message for a detailed config error.
pub open spec fn spec_abstract_config_error(s: Seq<char>) -> SafeErrorMessage {
    let l = spec_to_lowercase(s);
    if has_substring(l, "duplicate"@) {
        SafeErrorMessage::ConfigError(ConfigSafeError::DuplicateRuleId)
    } else if has_substring(l, "storage"@) && has_substring(l, "invalid"@) {
        SafeErrorMessage::ConfigError(ConfigSafeError::InvalidStorageType)
    } else if has_substring(l, "cache"@) && has_substring(l, "invalid"@) {
        SafeErrorMessage::ConfigError(ConfigSafeError::InvalidCacheType)
    } else if has_substring(l, "version"@) {
        SafeErrorMessage::ConfigError(ConfigSafeError::InvalidVersion)
    } else if has_substring(l, "missing"@) || has_substring(l, "empty"@) {
        SafeErrorMessage::ConfigError(ConfigSafeError::MissingRequiredField)
    } else if has_substring(l, "format"@) || has_substring(l, "parse"@) {
        SafeErrorMessage::ConfigError(ConfigSafeError::InvalidFormat)
    } else if has_substring(l, "limiter"@) {
        SafeErrorMessage::ConfigError(ConfigSafeError::InvalidLimiterConfig)
    } else if has_substring(l, "matcher"@) {
        SafeErrorMessage::ConfigError(ConfigSafeError::InvalidMatcherConfig)
    } else if has_substring(l, "range"@) || has_substring(l, "out of"@) {
        SafeErrorMessage::ConfigError(ConfigSafeError::ValueOutOfRange)
    } else if has_substring(l, "<script"@) || has_substring(l, "injection"@) {
        SafeErrorMessage::ConfigError(ConfigSafeError::SecurityRisk)
    } else {
        SafeErrorMessage::ConfigError(ConfigSafeError::InvalidFormat)
    }
}

/// The safe message for a detailed limit error.
pub open spec fn spec_abstract_limit_error(s: Seq<char>) -> SafeErrorMessage {
    let l = spec_to_lowercase(s);
    if has_substring(l, "rate"@) || has_substring(l, "rate limit"@) {
        SafeErrorMessage::LimitError(LimitSafeError::RateLimitExceeded)
    } else if has_substring(l, "quota"@) {
        SafeErrorMessage::LimitError(LimitSafeError::QuotaExceeded)
    } else if has_substring(l, "concurrency"@) || has_substring(l, "concurrent"@) {
        SafeErrorMessage::LimitError(LimitSafeError::ConcurrencyLimitExceeded)
    } else if has_substring(l, "token"@) {
        SafeErrorMessage::LimitError(LimitSafeError::TokenBucketEmpty)
    } else if has_substring(l, "window"@) {
        SafeErrorMessage::LimitError(LimitSafeError::WindowFull)
    } else {
        SafeErrorMessage::LimitError(LimitSafeError::TooManyRequests)
    }
}

/// The safe message for a detailed validation error.
pub open spec fn spec_abstract_validation_error(s: Seq<char>) -> SafeErrorMessage {
    let l = spec_to_lowercase(s);
    if has_substring(l, "empty"@) || has_substring(l, "null"@) {
        SafeErrorMessage::ValidationError(ValidationSafeError::InvalidInput)
    } else if has_substring(l, "length"@) || has_substring(l, "too long"@) {
        SafeErrorMessage::ValidationError(ValidationSafeError::InputTooLong)
    } else if has_substring(l, "format"@) || has_substring(l, "parse"@) {
        SafeErrorMessage::ValidationError(ValidationSafeError::InvalidFormat)
    } else if has_substring(l, "<script"@) || has_substring(l, "sql"@) || has_substring(l, "injection"@) {
        SafeErrorMessage::ValidationError(ValidationSafeError::SuspiciousPattern)
    } else if has_substring(l, "security"@) {
        SafeErrorMessage::ValidationError(ValidationSafeError::SecurityCheckFailed)
    } else {
        SafeErrorMessage::ValidationError(ValidationSafeError::MalformedData)
    }
}

impl ErrorMessageAbstraction {
    /// A storage error: by what its text mentions, in any case.
    pub fn abstract_storage_error(detailed_error: &str) -> (r: SafeErrorMessage)
        ensures
            r == spec_abstract_storage_error(detailed_error@),
    {
        let lower = to_lowercase(detailed_error);
        let l = lower.as_str();
        if str_contains(l, "connection") || str_contains(l, "connect") {
            SafeErrorMessage::StorageError(StorageSafeError::ConnectionFailed)
        } else if str_contains(l, "timeout") || str_contains(l, "timed out") {
            SafeErrorMessage::StorageError(StorageSafeError::Timeout)
        } else if str_contains(l, "not found") {
            SafeErrorMessage::StorageError(StorageSafeError::NotFound)
        } else if str_contains(l, "duplicate") {
            SafeErrorMessage::StorageError(StorageSafeError::ConcurrentModification)
        } else {
            SafeErrorMessage::StorageError(StorageSafeError::QueryFailed)
        }
    }

    /// A configuration error: by what its text mentions, in any case.
    pub fn abstract_config_error(detailed_error: &str) -> (r: SafeErrorMessage)
        ensures
            r == spec_abstract_config_error(detailed_error@),
    {
        let lower = to_lowercase(detailed_error);
        let l = lower.as_str();
        if str_contains(l, "duplicate") {
            SafeErrorMessage::ConfigError(ConfigSafeError::DuplicateRuleId)
        } else if str_contains(l, "storage") && str_contains(l, "invalid") {
            SafeErrorMessage::ConfigError(ConfigSafeError::InvalidStorageType)
        } else if str_contains(l, "cache") && str_contains(l, "invalid") {
            SafeErrorMessage::ConfigError(ConfigSafeError::InvalidCacheType)
        } else if str_contains(l, "version") {
            SafeErrorMessage::ConfigError(ConfigSafeError::InvalidVersion)
        } else if str_contains(l, "missing") || str_contains(l, "empty") {
            SafeErrorMessage::ConfigError(ConfigSafeError::MissingRequiredField)
        } else if str_contains(l, "format") || str_contains(l, "parse") {
            SafeErrorMessage::ConfigError(ConfigSafeError::InvalidFormat)
        } else if str_contains(l, "limiter") {
            SafeErrorMessage::ConfigError(ConfigSafeError::InvalidLimiterConfig)
        } else if str_contains(l, "matcher") {
            SafeErrorMessage::ConfigError(ConfigSafeError::InvalidMatcherConfig)
        } else if str_contains(l, "range") || str_contains(l, "out of") {
            SafeErrorMessage::ConfigError(ConfigSafeError::ValueOutOfRange)
        } else if str_contains(l, "<script") || str_contains(l, "injection") {
            SafeErrorMessage::ConfigError(ConfigSafeError::SecurityRisk)
        } else {
            SafeErrorMessage::ConfigError(ConfigSafeError::InvalidFormat)
        }
    }

    /// A limiting error: by what its text mentions, in any case.
    pub fn abstract_limit_error(detailed_error: &str) -> (r: SafeErrorMessage)
        ensures
            r == spec_abstract_limit_error(detailed_error@),
    {
        let lower = to_lowercase(detailed_error);
        let l = lower.as_str();
        if str_contains(l, "rate") || str_contains(l, "rate limit") {
            SafeErrorMessage::LimitError(LimitSafeError::RateLimitExceeded)
        } else if str_contains(l, "quota") {
            SafeErrorMessage::LimitError(LimitSafeError::QuotaExceeded)
        } else if str_contains(l, "concurrency") || str_contains(l, "concurrent") {
            SafeErrorMessage::LimitError(LimitSafeError::ConcurrencyLimitExceeded)
        } else if str_contains(l, "token") {
            SafeErrorMessage::LimitError(LimitSafeError::TokenBucketEmpty)
        } else if str_contains(l, "window") {
            SafeErrorMessage::LimitError(LimitSafeError::WindowFull)
        } else {
            SafeErrorMessage::LimitError(LimitSafeError::TooManyRequests)
        }
    }

    /// A validation error: by what its text mentions, in any case.
    pub fn abstract_validation_error(detailed_error: &str) -> (r: SafeErrorMessage)
        ensures
            r == spec_abstract_validation_error(detailed_error@),
    {
        let lower = to_lowercase(detailed_error);
        let l = lower.as_str();
        if str_contains(l, "empty") || str_contains(l, "null") {
            SafeErrorMessage::ValidationError(ValidationSafeError::InvalidInput)
        } else if str_contains(l, "length") || str_contains(l, "too long") {
            SafeErrorMessage::ValidationError(ValidationSafeError::InputTooLong)
        } else if str_contains(l, "format") || str_contains(l, "parse") {
            SafeErrorMessage::ValidationError(ValidationSafeError::InvalidFormat)
        } else if str_contains(l, "<script") || str_contains(l, "sql") || str_contains(l, "injection") {
            SafeErrorMessage::ValidationError(ValidationSafeError::SuspiciousPattern)
        } else if str_contains(l, "security") {
            SafeErrorMessage::ValidationError(ValidationSafeError::SecurityCheckFailed)
        } else {
            SafeErrorMessage::ValidationError(ValidationSafeError::MalformedData)
        }
    }

}

} // verus!
