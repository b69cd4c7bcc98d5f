use limiteron::error::abstraction::{
    BanSafeError, ConfigSafeError, ErrorMessageAbstraction, GeneralSafeError, LimitSafeError,
    SafeErrorMessage, StorageSafeError, ValidationSafeError,
};
use limiteron::error::{CircuitState, RateLimitMetadata, RejectionMetadata, StorageError};

#[test]
fn test_safe_error_dual_track() {
    let err = SafeErrorMessage::StorageError(StorageSafeError::NotFound);
    assert_eq!(err.to_string(), "Storage error: Record not found");
    assert_eq!(err.message_key(), "safe-error-storage");
    assert_eq!(err.inner_message_key(), "storage-safe-not-found");

    let inner = StorageSafeError::ConcurrentModification;
    assert_eq!(inner.to_string(), "Data was concurrently modified");
}

#[test]
fn test_storage_error_abstraction() {
    let err1 = ErrorMessageAbstraction::abstract_storage_error("Connection refused");
    assert_eq!(
        err1,
        SafeErrorMessage::StorageError(StorageSafeError::ConnectionFailed)
    );

    let err2 = ErrorMessageAbstraction::abstract_storage_error("Query timeout");
    assert_eq!(
        err2,
        SafeErrorMessage::StorageError(StorageSafeError::Timeout)
    );

    let err3 = ErrorMessageAbstraction::abstract_storage_error("Key not found");
    assert_eq!(
        err3,
        SafeErrorMessage::StorageError(StorageSafeError::NotFound)
    );
}

#[test]
fn test_config_error_abstraction() {
    let err1 = ErrorMessageAbstraction::abstract_config_error("Duplicate rule ID: test");
    assert_eq!(
        err1,
        SafeErrorMessage::ConfigError(ConfigSafeError::DuplicateRuleId)
    );

    let err2 = ErrorMessageAbstraction::abstract_config_error("Invalid storage type: mysql");
    assert_eq!(
        err2,
        SafeErrorMessage::ConfigError(ConfigSafeError::InvalidStorageType)
    );

    let err3 = ErrorMessageAbstraction::abstract_config_error("Version is empty");
    assert_eq!(
        err3,
        SafeErrorMessage::ConfigError(ConfigSafeError::InvalidVersion)
    );
}

#[test]
fn test_limit_error_abstraction() {
    let err1 = ErrorMessageAbstraction::abstract_limit_error("Rate limit exceeded");
    assert_eq!(
        err1,
        SafeErrorMessage::LimitError(LimitSafeError::RateLimitExceeded)
    );

    let err2 = ErrorMessageAbstraction::abstract_limit_error("Quota exceeded for user");
    assert_eq!(
        err2,
        SafeErrorMessage::LimitError(LimitSafeError::QuotaExceeded)
    );

    let err3 = ErrorMessageAbstraction::abstract_limit_error("Too many concurrent requests");
    assert_eq!(
        err3,
        SafeErrorMessage::LimitError(LimitSafeError::ConcurrencyLimitExceeded)
    );
}

#[test]
fn test_validation_error_abstraction() {
    let err1 = ErrorMessageAbstraction::abstract_validation_error("Input is empty");
    assert_eq!(
        err1,
        SafeErrorMessage::ValidationError(ValidationSafeError::InvalidInput)
    );

    let err2 = ErrorMessageAbstraction::abstract_validation_error("Input too long: 1000 chars");
    assert_eq!(
        err2,
        SafeErrorMessage::ValidationError(ValidationSafeError::InputTooLong)
    );

    let err3 =
        ErrorMessageAbstraction::abstract_validation_error("Detected SQL injection pattern");
    assert_eq!(
        err3,
        SafeErrorMessage::ValidationError(ValidationSafeError::SuspiciousPattern)
    );
}

#[test]
fn test_safe_error_display() {
    let err = SafeErrorMessage::ConfigError(ConfigSafeError::DuplicateRuleId);
    assert_eq!(err.to_string(), "Configuration error: Duplicate rule ID");

    let err = SafeErrorMessage::StorageError(StorageSafeError::ConnectionFailed);
    assert_eq!(err.to_string(), "Storage error: Connection failed");

    let err = SafeErrorMessage::LimitError(LimitSafeError::RateLimitExceeded);
    assert_eq!(err.to_string(), "Rate limit error: Request rate exceeded");
}

#[test]
fn test_storage_error_abstraction_all_branches() {
    let err = ErrorMessageAbstraction::abstract_storage_error("Duplicate key error");
    assert_eq!(
        err,
        SafeErrorMessage::StorageError(StorageSafeError::ConcurrentModification)
    );

    let err = ErrorMessageAbstraction::abstract_storage_error("Unknown database error");
    assert_eq!(
        err,
        SafeErrorMessage::StorageError(StorageSafeError::QueryFailed)
    );
}

#[test]
fn test_storage_error_abstraction_edge_cases() {
    let err = ErrorMessageAbstraction::abstract_storage_error("");
    assert_eq!(
        err,
        SafeErrorMessage::StorageError(StorageSafeError::QueryFailed)
    );

    let err = ErrorMessageAbstraction::abstract_storage_error("timed out");
    assert_eq!(
        err,
        SafeErrorMessage::StorageError(StorageSafeError::Timeout)
    );
}

#[test]
fn test_config_error_abstraction_all_branches() {
    let err = ErrorMessageAbstraction::abstract_config_error("Invalid cache type");
    assert_eq!(
        err,
        SafeErrorMessage::ConfigError(ConfigSafeError::InvalidCacheType)
    );

    let err = ErrorMessageAbstraction::abstract_config_error("Missing required field: name");
    assert_eq!(
        err,
        SafeErrorMessage::ConfigError(ConfigSafeError::MissingRequiredField)
    );

    let err = ErrorMessageAbstraction::abstract_config_error("Invalid format for field");
    assert_eq!(
        err,
        SafeErrorMessage::ConfigError(ConfigSafeError::InvalidFormat)
    );

    let err = ErrorMessageAbstraction::abstract_config_error("Invalid limiter configuration");
    assert_eq!(
        err,
        SafeErrorMessage::ConfigError(ConfigSafeError::InvalidLimiterConfig)
    );

    let err = ErrorMessageAbstraction::abstract_config_error("Invalid matcher config");
    assert_eq!(
        err,
        SafeErrorMessage::ConfigError(ConfigSafeError::InvalidMatcherConfig)
    );

    let err = ErrorMessageAbstraction::abstract_config_error("Value out of range");
    assert_eq!(
        err,
        SafeErrorMessage::ConfigError(ConfigSafeError::ValueOutOfRange)
    );

    let err = ErrorMessageAbstraction::abstract_config_error("<script>alert('xss')</script>");
    assert_eq!(
        err,
        SafeErrorMessage::ConfigError(ConfigSafeError::SecurityRisk)
    );

    let err = ErrorMessageAbstraction::abstract_config_error("Duplicate rule ID");
    assert_eq!(
        err,
        SafeErrorMessage::ConfigError(ConfigSafeError::DuplicateRuleId)
    );

    let err = ErrorMessageAbstraction::abstract_config_error("Invalid storage type");
    assert_eq!(
        err,
        SafeErrorMessage::ConfigError(ConfigSafeError::InvalidStorageType)
    );

    let err = ErrorMessageAbstraction::abstract_config_error("Invalid cache type");
    assert_eq!(
        err,
        SafeErrorMessage::ConfigError(ConfigSafeError::InvalidCacheType)
    );

    let err = ErrorMessageAbstraction::abstract_config_error("Invalid version");
    assert_eq!(
        err,
        SafeErrorMessage::ConfigError(ConfigSafeError::InvalidVersion)
    );
}

#[test]
fn test_config_error_abstraction_edge_cases() {
    let err = ErrorMessageAbstraction::abstract_config_error("");
    assert_eq!(
        err,
        SafeErrorMessage::ConfigError(ConfigSafeError::InvalidFormat)
    );

    let err = ErrorMessageAbstraction::abstract_config_error("injection attempt detected");
    assert_eq!(
        err,
        SafeErrorMessage::ConfigError(ConfigSafeError::SecurityRisk)
    );

    let err = ErrorMessageAbstraction::abstract_config_error("parse error");
    assert_eq!(
        err,
        SafeErrorMessage::ConfigError(ConfigSafeError::InvalidFormat)
    );
}

#[test]
fn test_limit_error_abstraction_all_branches() {
    let err = ErrorMessageAbstraction::abstract_limit_error("Request rate exceeded");
    assert_eq!(
        err,
        SafeErrorMessage::LimitError(LimitSafeError::RateLimitExceeded)
    );

    let err = ErrorMessageAbstraction::abstract_limit_error("Quota exhausted for user");
    assert_eq!(
        err,
        SafeErrorMessage::LimitError(LimitSafeError::QuotaExceeded)
    );

    let err = ErrorMessageAbstraction::abstract_limit_error("concurrent request limit");
    assert_eq!(
        err,
        SafeErrorMessage::LimitError(LimitSafeError::ConcurrencyLimitExceeded)
    );

    let err = ErrorMessageAbstraction::abstract_limit_error("No tokens available");
    assert_eq!(
        err,
        SafeErrorMessage::LimitError(LimitSafeError::TokenBucketEmpty)
    );

    let err = ErrorMessageAbstraction::abstract_limit_error("Window is full");
    assert_eq!(
        err,
        SafeErrorMessage::LimitError(LimitSafeError::WindowFull)
    );
}

#[test]
fn test_limit_error_abstraction_edge_cases() {
    let err = ErrorMessageAbstraction::abstract_limit_error("");
    assert_eq!(
        err,
        SafeErrorMessage::LimitError(LimitSafeError::TooManyRequests)
    );

    let err = ErrorMessageAbstraction::abstract_limit_error("rate concurrent");
    assert_eq!(
        err,
        SafeErrorMessage::LimitError(LimitSafeError::RateLimitExceeded)
    );

    let err = ErrorMessageAbstraction::abstract_limit_error("Some unknown limit error");
    assert_eq!(
        err,
        SafeErrorMessage::LimitError(LimitSafeError::TooManyRequests)
    );
}

#[test]
fn test_validation_error_abstraction_all_branches() {
    let err = ErrorMessageAbstraction::abstract_validation_error("null value");
    assert_eq!(
        err,
        SafeErrorMessage::ValidationError(ValidationSafeError::InvalidInput)
    );

    let err = ErrorMessageAbstraction::abstract_validation_error("Input too long: 1000 chars");
    assert_eq!(
        err,
        SafeErrorMessage::ValidationError(ValidationSafeError::InputTooLong)
    );

    let err = ErrorMessageAbstraction::abstract_validation_error("Parse error at line 1");
    assert_eq!(
        err,
        SafeErrorMessage::ValidationError(ValidationSafeError::InvalidFormat)
    );

    let err = ErrorMessageAbstraction::abstract_validation_error("<script>alert(1)</script>");
    assert_eq!(
        err,
        SafeErrorMessage::ValidationError(ValidationSafeError::SuspiciousPattern)
    );

    let err = ErrorMessageAbstraction::abstract_validation_error("Security check failed");
    assert_eq!(
        err,
        SafeErrorMessage::ValidationError(ValidationSafeError::SecurityCheckFailed)
    );
}

#[test]
fn test_validation_error_abstraction_edge_cases() {
    let err = ErrorMessageAbstraction::abstract_validation_error("");
    assert_eq!(
        err,
        SafeErrorMessage::ValidationError(ValidationSafeError::MalformedData)
    );

    let err = ErrorMessageAbstraction::abstract_validation_error("SQL injection detected");
    assert_eq!(
        err,
        SafeErrorMessage::ValidationError(ValidationSafeError::SuspiciousPattern)
    );

    let err = ErrorMessageAbstraction::abstract_validation_error("Unknown validation error");
    assert_eq!(
        err,
        SafeErrorMessage::ValidationError(ValidationSafeError::MalformedData)
    );

    let err = ErrorMessageAbstraction::abstract_validation_error("Format error");
    assert_eq!(
        err,
        SafeErrorMessage::ValidationError(ValidationSafeError::InvalidFormat)
    );
}

#[test]
fn test_display_config_safe_error_all_variants() {
    assert_eq!(
        ConfigSafeError::InvalidFormat.to_string(),
        "Invalid configuration format"
    );
    assert_eq!(
        ConfigSafeError::MissingRequiredField.to_string(),
        "Missing required field"
    );
    assert_eq!(
        ConfigSafeError::DuplicateRuleId.to_string(),
        "Duplicate rule ID"
    );
    assert_eq!(
        ConfigSafeError::InvalidStorageType.to_string(),
        "Invalid storage type"
    );
    assert_eq!(
        ConfigSafeError::InvalidCacheType.to_string(),
        "Invalid cache type"
    );
    assert_eq!(
        ConfigSafeError::InvalidMetricsType.to_string(),
        "Invalid metrics type"
    );
    assert_eq!(
        ConfigSafeError::InvalidVersion.to_string(),
        "Invalid version"
    );
    assert_eq!(ConfigSafeError::RuleNotFound.to_string(), "Rule not found");
    assert_eq!(
        ConfigSafeError::InvalidLimiterConfig.to_string(),
        "Invalid limiter configuration"
    );
    assert_eq!(
        ConfigSafeError::InvalidMatcherConfig.to_string(),
        "Invalid matcher configuration"
    );
    assert_eq!(
        ConfigSafeError::ValueOutOfRange.to_string(),
        "Value out of allowed range"
    );
    assert_eq!(
        ConfigSafeError::MalformedPattern.to_string(),
        "Malformed pattern"
    );
    assert_eq!(
        ConfigSafeError::SecurityRisk.to_string(),
        "Security risk detected"
    );
}

#[test]
fn test_display_storage_safe_error_all_variants() {
    assert_eq!(
        StorageSafeError::ConnectionFailed.to_string(),
        "Connection failed"
    );
    assert_eq!(StorageSafeError::QueryFailed.to_string(), "Query failed");
    assert_eq!(StorageSafeError::Timeout.to_string(), "Operation timed out");
    assert_eq!(StorageSafeError::NotFound.to_string(), "Record not found");
    assert_eq!(
        StorageSafeError::ConcurrentModification.to_string(),
        "Data was concurrently modified"
    );
    assert_eq!(StorageSafeError::StorageFull.to_string(), "Storage full");
    assert_eq!(
        StorageSafeError::InvalidDataFormat.to_string(),
        "Invalid data format"
    );
}

#[test]
fn test_display_limit_safe_error_all_variants() {
    assert_eq!(
        LimitSafeError::RateLimitExceeded.to_string(),
        "Request rate exceeded"
    );
    assert_eq!(LimitSafeError::QuotaExceeded.to_string(), "Quota exhausted");
    assert_eq!(
        LimitSafeError::ConcurrencyLimitExceeded.to_string(),
        "Concurrency limit exceeded"
    );
    assert_eq!(
        LimitSafeError::TokenBucketEmpty.to_string(),
        "Tokens exhausted"
    );
    assert_eq!(
        LimitSafeError::WindowFull.to_string(),
        "Time window is full"
    );
    assert_eq!(
        LimitSafeError::TooManyRequests.to_string(),
        "Too many requests"
    );
}

#[test]
fn test_display_ban_safe_error_all_variants() {
    assert_eq!(BanSafeError::UserBanned.to_string(), "User is banned");
    assert_eq!(BanSafeError::IpBanned.to_string(), "IP address is banned");
    assert_eq!(BanSafeError::DeviceBanned.to_string(), "Device is banned");
    assert_eq!(
        BanSafeError::RateExceeded.to_string(),
        "Request rate exceeded"
    );
    assert_eq!(
        BanSafeError::SpamDetected.to_string(),
        "Suspicious behavior detected"
    );
    assert_eq!(
        BanSafeError::SecurityViolation.to_string(),
        "Security check failed"
    );
}

#[test]
fn test_display_validation_safe_error_all_variants() {
    assert_eq!(
        ValidationSafeError::InvalidInput.to_string(),
        "Invalid input"
    );
    assert_eq!(
        ValidationSafeError::MalformedData.to_string(),
        "Malformed data"
    );
    assert_eq!(
        ValidationSafeError::SecurityCheckFailed.to_string(),
        "Security check failed"
    );
    assert_eq!(
        ValidationSafeError::InputTooLong.to_string(),
        "Input too long"
    );
    assert_eq!(
        ValidationSafeError::InvalidFormat.to_string(),
        "Invalid format"
    );
    assert_eq!(
        ValidationSafeError::SuspiciousPattern.to_string(),
        "Suspicious pattern detected"
    );
}

#[test]
fn test_display_general_safe_error_all_variants() {
    assert_eq!(
        GeneralSafeError::InternalError.to_string(),
        "Internal error"
    );
    assert_eq!(
        GeneralSafeError::ServiceUnavailable.to_string(),
        "Service unavailable"
    );
    assert_eq!(
        GeneralSafeError::InvalidRequest.to_string(),
        "Invalid request"
    );
    assert_eq!(GeneralSafeError::Unauthorized.to_string(), "Unauthorized");
    assert_eq!(GeneralSafeError::Forbidden.to_string(), "Forbidden");
    assert_eq!(GeneralSafeError::RateLimited.to_string(), "Rate limited");
}

#[test]
fn test_display_safe_error_message_all_variants() {
    assert_eq!(
        SafeErrorMessage::ConfigError(ConfigSafeError::InvalidCacheType).to_string(),
        "Configuration error: Invalid cache type"
    );
    assert_eq!(
        SafeErrorMessage::StorageError(StorageSafeError::StorageFull).to_string(),
        "Storage error: Storage full"
    );
    assert_eq!(
        SafeErrorMessage::LimitError(LimitSafeError::WindowFull).to_string(),
        "Rate limit error: Time window is full"
    );
    assert_eq!(
        SafeErrorMessage::BanError(BanSafeError::UserBanned).to_string(),
        "Ban error: User is banned"
    );
    assert_eq!(
        SafeErrorMessage::ValidationError(ValidationSafeError::InputTooLong).to_string(),
        "Validation error: Input too long"
    );
    assert_eq!(
        SafeErrorMessage::General(GeneralSafeError::InternalError).to_string(),
        "Error: Internal error"
    );
}

#[test]
fn test_safe_error_message_construction() {
    let err = SafeErrorMessage::BanError(BanSafeError::IpBanned);
    assert_eq!(err, SafeErrorMessage::BanError(BanSafeError::IpBanned));

    let err = SafeErrorMessage::General(GeneralSafeError::ServiceUnavailable);
    assert_eq!(
        err,
        SafeErrorMessage::General(GeneralSafeError::ServiceUnavailable)
    );

    let err = SafeErrorMessage::ConfigError(ConfigSafeError::RuleNotFound);
    assert_eq!(
        err,
        SafeErrorMessage::ConfigError(ConfigSafeError::RuleNotFound)
    );

    let err = SafeErrorMessage::ValidationError(ValidationSafeError::SuspiciousPattern);
    assert_eq!(
        err,
        SafeErrorMessage::ValidationError(ValidationSafeError::SuspiciousPattern)
    );
}

#[test]
fn test_error_types_inequality() {
    assert_ne!(
        ConfigSafeError::InvalidFormat,
        ConfigSafeError::MissingRequiredField
    );
    assert_ne!(
        StorageSafeError::ConnectionFailed,
        StorageSafeError::QueryFailed
    );
    assert_ne!(
        LimitSafeError::RateLimitExceeded,
        LimitSafeError::QuotaExceeded
    );
    assert_ne!(BanSafeError::UserBanned, BanSafeError::IpBanned);
    assert_ne!(
        ValidationSafeError::InvalidInput,
        ValidationSafeError::MalformedData
    );
    assert_ne!(
        GeneralSafeError::InternalError,
        GeneralSafeError::ServiceUnavailable
    );
}

#[test]
fn test_safe_error_message_inequality() {
    assert_ne!(
        SafeErrorMessage::ConfigError(ConfigSafeError::InvalidFormat),
        SafeErrorMessage::StorageError(StorageSafeError::ConnectionFailed)
    );
    assert_ne!(
        SafeErrorMessage::LimitError(LimitSafeError::RateLimitExceeded),
        SafeErrorMessage::BanError(BanSafeError::UserBanned)
    );
}

#[test]
fn test_rate_limit_metadata_default() {
    let metadata = RateLimitMetadata::default();
    assert_eq!(metadata.limit, 0);
    assert_eq!(metadata.remaining, 0);
    assert_eq!(metadata.reset_at, 0);
    assert!(metadata.retry_after.is_none());
    assert!(metadata.policy.is_empty());
}

#[test]
fn test_rejection_metadata() {
    let metadata = RejectionMetadata::new("test".to_string(), 30, 50, 1234567890);
    assert_eq!(metadata.reason, "test");
    assert_eq!(metadata.retry_after, 30);
    assert_eq!(metadata.limit, 50);
    assert_eq!(metadata.reset_at, 1234567890);
}

#[test]
fn test_storage_error_is_transient() {
    assert!(StorageError::TimeoutError("t".into()).is_transient());
    assert!(StorageError::ConnectionError("c".into()).is_transient());
    assert!(StorageError::RateLimitError("r".into()).is_transient());
    assert!(!StorageError::NotFound("n".into()).is_transient());
    assert!(!StorageError::QueryError("q".into()).is_transient());
    assert!(!StorageError::AuthenticationError("a".into()).is_transient());
    assert!(!StorageError::PermissionError("p".into()).is_transient());
    assert!(!StorageError::InvalidConfig("i".into()).is_transient());
    assert!(!StorageError::ValidationError("v".into()).is_transient());
}

#[test]
fn test_storage_error_is_permanent() {
    assert!(StorageError::AuthenticationError("a".into()).is_permanent());
    assert!(StorageError::PermissionError("p".into()).is_permanent());
    assert!(StorageError::InvalidConfig("i".into()).is_permanent());
    assert!(!StorageError::TimeoutError("t".into()).is_permanent());
    assert!(!StorageError::ConnectionError("c".into()).is_permanent());
    assert!(!StorageError::NotFound("n".into()).is_permanent());
    assert!(!StorageError::QueryError("q".into()).is_permanent());
    assert!(!StorageError::RateLimitError("r".into()).is_permanent());
    assert!(!StorageError::ValidationError("v".into()).is_permanent());
}

#[test]
fn test_circuit_state_display() {
    assert_eq!(CircuitState::Closed.to_string(), "closed");
    assert_eq!(CircuitState::Open.to_string(), "open");
    assert_eq!(CircuitState::HalfOpen.to_string(), "half_open");
}

#[test]
fn test_storage_error_display() {
    assert_eq!(
        StorageError::ConnectionError("c".into()).to_string(),
        "Connection error: c"
    );
    assert_eq!(
        StorageError::QueryError("q".into()).to_string(),
        "Query error: q"
    );
    assert_eq!(
        StorageError::TimeoutError("t".into()).to_string(),
        "Timeout error: t"
    );
    assert_eq!(
        StorageError::NotFound("n".into()).to_string(),
        "Not found: n"
    );
    assert_eq!(
        StorageError::AuthenticationError("a".into()).to_string(),
        "Authentication error: a"
    );
    assert_eq!(
        StorageError::PermissionError("p".into()).to_string(),
        "Permission error: p"
    );
    assert_eq!(
        StorageError::InvalidConfig("i".into()).to_string(),
        "Invalid configuration: i"
    );
    assert_eq!(
        StorageError::RateLimitError("r".into()).to_string(),
        "Rate limit: r"
    );
    assert_eq!(
        StorageError::ValidationError("v".into()).to_string(),
        "Validation error: v"
    );
}
