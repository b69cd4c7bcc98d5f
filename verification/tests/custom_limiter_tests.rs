use limiteron::custom_limiter::LimiterStats;

#[test]
fn test_limiter_stats_new() {
    let stats = LimiterStats::new();
    assert_eq!(stats.total_requests, 0);
    assert_eq!(stats.allowed_requests, 0);
    assert_eq!(stats.rejected_requests, 0);
}
