use llmnet::runtime::request::vars;
use llmnet::runtime::request::{count_words, PipelineRequest};

#[test]
fn test_new_request() {
    let req = PipelineRequest::new("Hello".to_string());
    assert_eq!(req.original_prompt, "Hello");
    assert_eq!(req.current_content, "Hello");
    assert!(req.trace.is_empty());
}

#[test]
fn test_add_hop() {
    let mut req = PipelineRequest::new("Hello".to_string());
    req.add_hop("router".to_string(), 0, Some("node1".to_string()));

    assert_eq!(req.trace.len(), 1);
    assert_eq!(req.trace[0].node_name, "router");
    assert_eq!(req.trace[0].layer, 0);
    assert_eq!(req.trace[0].decision, Some("node1".to_string()));
}

#[test]
fn test_variables() {
    let mut req = PipelineRequest::new("Hello".to_string());
    req.set_variable("X-Custom".to_string(), "value".to_string());

    assert_eq!(req.get_variable("X-Custom"), Some(&"value".to_string()));
    assert_eq!(req.get_variable("Nonexistent"), None);
}

#[test]
fn test_update_content() {
    let mut req = PipelineRequest::new("Original".to_string());
    req.set_content("Modified".to_string());

    assert_eq!(req.original_prompt, "Original");
    assert_eq!(req.current_content, "Modified");
}

#[test]
fn test_initial_input_variable() {
    let req = PipelineRequest::new("Hello World".to_string());
    assert_eq!(
        req.get_variable(vars::INITIAL_INPUT),
        Some(&"Hello World".to_string())
    );
}

#[test]
fn test_current_input_variable() {
    let mut req = PipelineRequest::new("Hello".to_string());
    assert_eq!(
        req.get_variable(vars::CURRENT_INPUT),
        Some(&"Hello".to_string())
    );

    req.set_content("Modified content".to_string());
    assert_eq!(
        req.get_variable(vars::CURRENT_INPUT),
        Some(&"Modified content".to_string())
    );
    assert_eq!(
        req.get_variable(vars::INITIAL_INPUT),
        Some(&"Hello".to_string())
    );
}

#[test]
fn test_prev_node_variable() {
    let mut req = PipelineRequest::new("Hello".to_string());
    assert_eq!(req.get_variable(vars::PREV_NODE), None);

    req.add_hop("router".to_string(), 0, None);
    assert_eq!(
        req.get_variable(vars::PREV_NODE),
        Some(&"router".to_string())
    );

    req.add_hop("handler".to_string(), 1, None);
    assert_eq!(
        req.get_variable(vars::PREV_NODE),
        Some(&"handler".to_string())
    );
}

#[test]
fn test_prev_layer_variable() {
    let mut req = PipelineRequest::new("Hello".to_string());
    assert_eq!(req.get_variable(vars::PREV_LAYER), None);

    req.add_hop("router".to_string(), 0, None);
    assert_eq!(req.get_variable(vars::PREV_LAYER), Some(&"0".to_string()));

    req.add_hop("handler".to_string(), 1, None);
    assert_eq!(req.get_variable(vars::PREV_LAYER), Some(&"1".to_string()));
}

#[test]
fn test_current_layer_variable() {
    let mut req = PipelineRequest::new("Hello".to_string());
    req.set_current_layer(2);
    assert_eq!(
        req.get_variable(vars::CURRENT_LAYER),
        Some(&"2".to_string())
    );
}

#[test]
fn test_hop_count_variable() {
    let mut req = PipelineRequest::new("Hello".to_string());
    assert_eq!(req.get_variable(vars::HOP_COUNT), Some(&"0".to_string()));

    req.add_hop("router".to_string(), 0, None);
    assert_eq!(req.get_variable(vars::HOP_COUNT), Some(&"1".to_string()));

    req.add_hop("handler".to_string(), 1, None);
    assert_eq!(req.get_variable(vars::HOP_COUNT), Some(&"2".to_string()));
}

#[test]
fn test_timestamp_variable() {
    let req = PipelineRequest::new("Hello".to_string());
    let ts = req.get_variable(vars::TIMESTAMP).unwrap();
    let ts_num: i64 = ts.parse().unwrap();
    assert!(ts_num > 1577836800);
}

#[test]
fn test_request_id_variable() {
    let req = PipelineRequest::new("Hello".to_string());
    let id = req.get_variable(vars::REQUEST_ID).unwrap();
    assert!(uuid::Uuid::parse_str(id).is_ok());
    assert_eq!(id, &uuid::Uuid::from_u128(req.request_id).to_string());
}

#[test]
fn request_with_fixed_id_and_time() {
    let req = PipelineRequest::with_id(0x67e5504410b1426f9247bb680e5fe0c8, "a b".to_string(), -42);
    assert_eq!(
        req.get_variable(vars::REQUEST_ID),
        Some(&"67e55044-10b1-426f-9247-bb680e5fe0c8".to_string())
    );
    assert_eq!(req.get_variable(vars::TIMESTAMP), Some(&"-42".to_string()));
    assert_eq!(req.start_time, -42);
    assert_eq!(req.get_variable(vars::WORD_COUNT), Some(&"2".to_string()));
    assert_eq!(req.variables.len(), 7);
}

#[test]
fn request_hop_and_content_at_fixed_time() {
    let mut req = PipelineRequest::with_id(1, "x".to_string(), 10);
    req.add_hop_at("n".to_string(), 3, None, 20);
    assert_eq!(req.trace[0].timestamp, 20);
    req.set_content_at("héllo wörld".to_string(), 30);
    assert_eq!(req.get_variable(vars::TIMESTAMP), Some(&"30".to_string()));
    assert_eq!(req.get_variable(vars::INPUT_LENGTH), Some(&"13".to_string()));
    assert_eq!(req.get_variable(vars::ROUTE_DECISION), None);
}

#[test]
fn test_route_decision_variable() {
    let mut req = PipelineRequest::new("Hello".to_string());
    assert_eq!(req.get_variable(vars::ROUTE_DECISION), None);

    req.add_hop("router".to_string(), 0, Some("handler-a".to_string()));
    assert_eq!(
        req.get_variable(vars::ROUTE_DECISION),
        Some(&"handler-a".to_string())
    );
}

#[test]
fn test_input_length_variable() {
    let mut req = PipelineRequest::new("Hello".to_string());
    assert_eq!(req.get_variable(vars::INPUT_LENGTH), Some(&"5".to_string()));

    req.set_content("Hello World".to_string());
    assert_eq!(
        req.get_variable(vars::INPUT_LENGTH),
        Some(&"11".to_string())
    );
}

#[test]
fn test_word_count_variable() {
    let mut req = PipelineRequest::new("Hello World".to_string());
    assert_eq!(req.get_variable(vars::WORD_COUNT), Some(&"2".to_string()));

    req.set_content("The quick brown fox".to_string());
    assert_eq!(req.get_variable(vars::WORD_COUNT), Some(&"4".to_string()));
}

#[test]
fn test_count_words_helper() {
    assert_eq!(count_words(""), 0);
    assert_eq!(count_words("hello"), 1);
    assert_eq!(count_words("hello world"), 2);
    assert_eq!(count_words("  hello   world  "), 2);
    assert_eq!(count_words("one\ttwo\nthree"), 3);
}

#[test]
fn headers_are_variables() {
    let mut req = PipelineRequest::new("Hello".to_string());
    req.set_header("k".to_string(), "v".to_string());
    assert_eq!(req.get_header("k"), Some(&"v".to_string()));
    assert_eq!(req.get_variables().get("k"), Some(&"v".to_string()));
}
