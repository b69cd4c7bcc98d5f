use limiteron::circuit_breaker::CircuitBreakerConfig;
use limiteron::time::Duration;

#[test]
fn test_circuit_breaker_config_default() {
    let config = CircuitBreakerConfig::default();
    assert_eq!(config.failure_threshold, 5);
    assert_eq!(config.success_threshold, 3);
    assert_eq!(config.timeout, Duration::from_secs(30));
    assert_eq!(config.half_open_max_calls, 3);
}

#[test]
fn test_circuit_breaker_config_new() {
    let config = CircuitBreakerConfig::new(10, 3, Duration::from_secs(120));
    assert_eq!(config.failure_threshold, 10);
    assert_eq!(config.success_threshold, 3);
    assert_eq!(config.timeout, Duration::from_secs(120));
}

#[test]
fn test_circuit_breaker_config_builder() {
    let config = CircuitBreakerConfig::new(5, 2, Duration::from_secs(60)).half_open_max_calls(5);
    assert_eq!(config.half_open_max_calls, 5);
}
