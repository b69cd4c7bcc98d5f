use limiteron::custom_limiter::TokenBucketLimiter;
use limiteron::decision_chain::{DecisionChainBuilder, DecisionNode};

#[test]
fn decision_chain_test_decision_node_creation() {
    let limiter = TokenBucketLimiter::new(100, 10);
    let node = DecisionNode::new(
        "node1".to_string(),
        "Token Bucket".to_string(),
        limiter,
        100,
    );

    assert_eq!(node.id, "node1");
    assert_eq!(node.name, "Token Bucket");
    assert_eq!(node.priority, 100);
    assert!(node.enabled);
    assert!(node.short_circuit);
    assert_eq!(node.cost, 1);
}

#[test]
fn decision_chain_test_decision_node_with_options() {
    let limiter = TokenBucketLimiter::new(100, 10);
    let node = DecisionNode::new(
        "node1".to_string(),
        "Token Bucket".to_string(),
        limiter,
        100,
    )
    .with_enabled(false)
    .with_short_circuit(false)
    .with_cost(5);

    assert!(!node.enabled);
    assert!(!node.short_circuit);
    assert_eq!(node.cost, 5);
}

#[test]
fn types_test_decision_node_creation() {
    let limiter = TokenBucketLimiter::new(100, 10);
    let node = DecisionNode::with_dependencies(
        "node1".to_string(),
        "Token Bucket".to_string(),
        limiter,
        100,
    );

    assert_eq!(node.id, "node1");
    assert_eq!(node.name, "Token Bucket");
    assert_eq!(node.priority, 100);
    assert!(node.enabled);
    assert!(node.short_circuit);
    assert_eq!(node.cost, 1);
}

#[test]
fn types_test_decision_node_with_options() {
    let limiter = TokenBucketLimiter::new(100, 10);
    let node = DecisionNode::with_dependencies(
        "node1".to_string(),
        "Token Bucket".to_string(),
        limiter,
        100,
    )
    .with_enabled(false)
    .with_short_circuit(false)
    .with_cost(5);

    assert!(!node.enabled);
    assert!(!node.short_circuit);
    assert_eq!(node.cost, 5);
}

#[test]
fn test_decision_node_new_backward_compat() {
    let limiter = TokenBucketLimiter::new(100, 10);
    let node = DecisionNode::new("node1".to_string(), "new method".to_string(), limiter, 100);
    assert_eq!(node.id, "node1");
    assert_eq!(node.name, "new method");
    assert_eq!(node.priority, 100);
    assert!(node.enabled);
    assert!(node.short_circuit);
    assert_eq!(node.cost, 1);
}

#[test]
fn test_decision_chain_builder_default_trait() {
    let _builder: DecisionChainBuilder = DecisionChainBuilder::default();
}
