use std::collections::HashMap;

use llmnet::config::architecture::{ArchitectureNode, NodeHooks};
use llmnet::runtime::node::{
    parse_port, plan_condition, AdapterType, ConditionPlan, NumericOp, RuntimeNode,
};
use llmnet::strmap::StrMap;

/// Evaluates a condition the way the runtime does: the library plans it, and the first
/// numeric comparison whose operands both read as `f64` decides; none passes.
fn evaluate_condition(condition: &str, variables: &HashMap<String, String>) -> bool {
    let mut m = StrMap::new();
    for (k, v) in variables {
        m.insert(k.clone(), v.clone());
    }
    match plan_condition(condition, &m) {
        ConditionPlan::Decided(b) => b,
        ConditionPlan::Numeric(checks) => {
            for c in checks {
                if let (Ok(a), Ok(b)) = (c.value.parse::<f64>(), c.literal.parse::<f64>()) {
                    return match c.op {
                        NumericOp::Ge => a >= b,
                        NumericOp::Le => a <= b,
                        NumericOp::Gt => a > b,
                        NumericOp::Lt => a < b,
                    };
                }
            }
            true
        }
    }
}

fn arch(name: &str, adapter: &str) -> ArchitectureNode {
    ArchitectureNode {
        name: name.to_string(),
        layer: None,
        model: None,
        adapter: adapter.to_string(),
        bind_addr: None,
        bind_port: None,
        output_to: None,
        use_case: None,
        condition: None,
        url: None,
        context: None,
        extra_options: StrMap::new(),
        hooks: NodeHooks::default(),
    }
}

#[test]
fn test_adapter_type_from_node() {
    let node1 = arch("test", "openai-api");
    assert_eq!(AdapterType::from_node(&node1), AdapterType::OpenAiApi);

    let node2 = arch("test", "output");
    assert_eq!(AdapterType::from_node(&node2), AdapterType::Output);

    let mut node3 = arch("test", "ws");
    node3.url = Some("ws://localhost:3000".to_string());
    assert!(matches!(AdapterType::from_node(&node3), AdapterType::WebSocket { .. }));
}

#[test]
fn test_runtime_node_from_architecture() {
    let mut arch_node = arch("test-node", "openai-api");
    arch_node.layer = Some(1);
    arch_node.bind_addr = Some("127.0.0.1".to_string());
    arch_node.bind_port = Some("9000".to_string());
    arch_node.use_case = Some("Test use case".to_string());

    let runtime = RuntimeNode::from_architecture(&arch_node, None, 0);

    assert_eq!(runtime.name, "test-node");
    assert_eq!(runtime.layer, 1);
    assert_eq!(runtime.bind_addr, "127.0.0.1");
    assert_eq!(runtime.bind_port, 9000);
    assert_eq!(runtime.socket_addr(), "127.0.0.1:9000");
}

#[test]
fn runtime_node_defaults_port_from_offset() {
    let mut n = arch("n", "output");
    n.bind_port = Some("not-a-port".to_string());
    let r = RuntimeNode::from_architecture(&n, None, 3);
    assert_eq!(r.bind_port, 8083);
    assert_eq!(r.bind_addr, "0.0.0.0");
    assert!(r.is_output());
    assert!(!r.is_websocket());
    assert_eq!(r.model_override(), None);
}

#[test]
fn parse_port_follows_u16_parse() {
    assert_eq!(parse_port("9000"), Some(9000));
    assert_eq!(parse_port("+80"), Some(80));
    assert_eq!(parse_port("65535"), Some(65535));
    assert_eq!(parse_port("65536"), None);
    assert_eq!(parse_port(""), None);
    assert_eq!(parse_port("-1"), None);
    assert_eq!(parse_port(" 80"), None);
}

#[test]
fn test_evaluate_condition_existence() {
    let mut vars = HashMap::new();
    vars.insert("MyKey".to_string(), "some-value".to_string());

    assert!(evaluate_condition("$MyKey", &vars));
    assert!(!evaluate_condition("$NonExistent", &vars));
}

#[test]
fn test_evaluate_condition_empty_value() {
    let mut vars = HashMap::new();
    vars.insert("EmptyKey".to_string(), "".to_string());

    assert!(!evaluate_condition("$EmptyKey", &vars));
}

#[test]
fn node_test_evaluate_condition_equality() {
    let mut vars = HashMap::new();
    vars.insert("Mode".to_string(), "test".to_string());

    assert!(evaluate_condition("$Mode == \"test\"", &vars));
    assert!(!evaluate_condition("$Mode == \"prod\"", &vars));
}

#[test]
fn node_test_evaluate_condition_inequality() {
    let mut vars = HashMap::new();
    vars.insert("Mode".to_string(), "test".to_string());

    assert!(evaluate_condition("$Mode != \"prod\"", &vars));
    assert!(!evaluate_condition("$Mode != \"test\"", &vars));
}

#[test]
fn test_evaluate_condition_greater_than() {
    let mut vars = HashMap::new();
    vars.insert("HOP_COUNT".to_string(), "5".to_string());

    assert!(evaluate_condition("$HOP_COUNT > 3", &vars));
    assert!(!evaluate_condition("$HOP_COUNT > 5", &vars));
    assert!(!evaluate_condition("$HOP_COUNT > 10", &vars));
}

#[test]
fn test_evaluate_condition_less_than() {
    let mut vars = HashMap::new();
    vars.insert("HOP_COUNT".to_string(), "5".to_string());

    assert!(evaluate_condition("$HOP_COUNT < 10", &vars));
    assert!(!evaluate_condition("$HOP_COUNT < 5", &vars));
    assert!(!evaluate_condition("$HOP_COUNT < 3", &vars));
}

#[test]
fn test_evaluate_condition_greater_than_or_equal() {
    let mut vars = HashMap::new();
    vars.insert("HOP_COUNT".to_string(), "5".to_string());

    assert!(evaluate_condition("$HOP_COUNT >= 5", &vars));
    assert!(evaluate_condition("$HOP_COUNT >= 3", &vars));
    assert!(!evaluate_condition("$HOP_COUNT >= 10", &vars));
}

#[test]
fn test_evaluate_condition_less_than_or_equal() {
    let mut vars = HashMap::new();
    vars.insert("HOP_COUNT".to_string(), "5".to_string());

    assert!(evaluate_condition("$HOP_COUNT <= 5", &vars));
    assert!(evaluate_condition("$HOP_COUNT <= 10", &vars));
    assert!(!evaluate_condition("$HOP_COUNT <= 3", &vars));
}

#[test]
fn test_evaluate_condition_float_comparison() {
    let mut vars = HashMap::new();
    vars.insert("SCORE".to_string(), "3.5".to_string());

    assert!(evaluate_condition("$SCORE > 3.0", &vars));
    assert!(evaluate_condition("$SCORE < 4.0", &vars));
    assert!(evaluate_condition("$SCORE >= 3.5", &vars));
    assert!(evaluate_condition("$SCORE <= 3.5", &vars));
}

#[test]
fn test_evaluate_condition_input_length() {
    let mut vars = HashMap::new();
    vars.insert("INPUT_LENGTH".to_string(), "100".to_string());

    assert!(evaluate_condition("$INPUT_LENGTH > 50", &vars));
    assert!(evaluate_condition("$INPUT_LENGTH < 200", &vars));
    assert!(evaluate_condition("$INPUT_LENGTH >= 100", &vars));
    assert!(evaluate_condition("$INPUT_LENGTH <= 100", &vars));
}

#[test]
fn test_evaluate_condition_word_count() {
    let mut vars = HashMap::new();
    vars.insert("WORD_COUNT".to_string(), "15".to_string());

    assert!(evaluate_condition("$WORD_COUNT > 10", &vars));
    assert!(!evaluate_condition("$WORD_COUNT > 20", &vars));
}

#[test]
fn test_evaluate_condition_non_numeric_fails_gracefully() {
    let mut vars = HashMap::new();
    vars.insert("NAME".to_string(), "hello".to_string());

    assert!(evaluate_condition("$NAME > 5", &vars));
}

#[test]
fn test_evaluate_condition_missing_var_numeric() {
    let vars = HashMap::new();

    assert!(evaluate_condition("$MISSING > 5", &vars));
}

#[test]
fn test_evaluate_condition_edge_cases() {
    let mut vars = HashMap::new();
    vars.insert("ZERO".to_string(), "0".to_string());
    vars.insert("NEGATIVE".to_string(), "-5".to_string());

    assert!(evaluate_condition("$ZERO >= 0", &vars));
    assert!(evaluate_condition("$ZERO <= 0", &vars));
    assert!(!evaluate_condition("$ZERO > 0", &vars));
    assert!(!evaluate_condition("$ZERO < 0", &vars));

    assert!(evaluate_condition("$NEGATIVE < 0", &vars));
    assert!(evaluate_condition("$NEGATIVE > -10", &vars));
}

#[test]
fn plan_lists_checks_in_operator_order() {
    let mut m = StrMap::new();
    m.insert("A".to_string(), "7".to_string());
    match plan_condition("  $A >= 2  ", &m) {
        ConditionPlan::Numeric(checks) => {
            assert_eq!(checks.len(), 1);
            assert_eq!(checks[0].op, NumericOp::Ge);
            assert_eq!(checks[0].value, "7");
            assert_eq!(checks[0].literal, "2");
        }
        ConditionPlan::Decided(_) => panic!("expected a numeric plan"),
    }
    assert!(matches!(plan_condition("garbage", &m), ConditionPlan::Numeric(v) if v.is_empty()));
}
