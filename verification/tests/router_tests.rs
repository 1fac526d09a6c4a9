use llmnet::client::openai::ClientError;
use llmnet::client::openai::{ChatCompletionResponse, Choice, Message};
use llmnet::runtime::router::{extract_node_selection, NodeMetadata, RouterError};

fn sample_nodes() -> Vec<NodeMetadata> {
    vec![
        NodeMetadata {
            name: "company-2024-q3".to_string(),
            use_case: Some("Handle Q3 2024 company queries".to_string()),
        },
        NodeMetadata {
            name: "company-2024-q4".to_string(),
            use_case: Some("Handle Q4 2024 company queries".to_string()),
        },
        NodeMetadata {
            name: "general-assistant".to_string(),
            use_case: Some("General purpose assistant".to_string()),
        },
    ]
}

#[test]
fn test_extract_exact_match() {
    let nodes = sample_nodes();
    let result = extract_node_selection("company-2024-q3", &nodes);
    assert_eq!(result.unwrap(), "company-2024-q3");
}

#[test]
fn test_extract_case_insensitive() {
    let nodes = sample_nodes();
    let result = extract_node_selection("COMPANY-2024-Q3", &nodes);
    assert_eq!(result.unwrap(), "company-2024-q3");
}

#[test]
fn test_extract_with_whitespace() {
    let nodes = sample_nodes();
    let result = extract_node_selection("  company-2024-q3  \n", &nodes);
    assert_eq!(result.unwrap(), "company-2024-q3");
}

#[test]
fn test_extract_contained_in_response() {
    let nodes = sample_nodes();
    let result = extract_node_selection("I think company-2024-q3 is the best choice.", &nodes);
    assert_eq!(result.unwrap(), "company-2024-q3");
}

#[test]
fn test_extract_invalid_selection() {
    let nodes = sample_nodes();
    let result = extract_node_selection("some-other-model", &nodes);
    assert!(matches!(result, Err(RouterError::InvalidSelection(_))));
}

#[test]
fn test_extract_empty_response() {
    let nodes = sample_nodes();
    let result = extract_node_selection("", &nodes);
    assert!(matches!(result, Err(RouterError::EmptyResponse)));
}

#[test]
fn extract_whitespace_only_is_empty() {
    let nodes = sample_nodes();
    assert!(matches!(extract_node_selection(" \t\n ", &nodes), Err(RouterError::EmptyResponse)));
}

#[test]
fn extract_invalid_selection_reports_trimmed_text() {
    let nodes = sample_nodes();
    match extract_node_selection("  nothing here \n", &nodes) {
        Err(RouterError::InvalidSelection(s)) => assert_eq!(s, "nothing here"),
        other => panic!("unexpected {:?}", other),
    }
}

#[test]
fn extract_exact_match_beats_earlier_containment() {
    let nodes = vec![
        NodeMetadata { name: "a".to_string(), use_case: None },
        NodeMetadata { name: "ab".to_string(), use_case: None },
    ];
    // "ab" contains "a", but the exact match is preferred.
    assert_eq!(extract_node_selection("ab", &nodes).unwrap(), "ab");
}

#[test]
fn extract_case_insensitive_beats_containment() {
    let nodes = vec![
        NodeMetadata { name: "x".to_string(), use_case: None },
        NodeMetadata { name: "XY".to_string(), use_case: None },
    ];
    assert_eq!(extract_node_selection("xy", &nodes).unwrap(), "XY");
}

#[test]
fn extract_case_insensitive_containment() {
    let nodes = sample_nodes();
    let result = extract_node_selection("Use GENERAL-ASSISTANT please", &nodes);
    assert_eq!(result.unwrap(), "general-assistant");
}

#[test]
fn extract_with_no_nodes_is_invalid() {
    let nodes: Vec<NodeMetadata> = vec![];
    assert!(matches!(extract_node_selection("anything", &nodes), Err(RouterError::InvalidSelection(_))));
}

#[test]
fn first_choice_content_of_response() {
    let resp = ChatCompletionResponse {
        id: "x".to_string(),
        choices: vec![Choice {
            index: 0,
            message: Message { role: "assistant".to_string(), content: "node-a".to_string() },
            finish_reason: None,
        }],
        usage: None,
    };
    assert_eq!(resp.first_choice_content(), "node-a");
    let empty = ChatCompletionResponse { id: "y".to_string(), choices: vec![], usage: None };
    assert_eq!(empty.first_choice_content(), "");
}

#[test]
fn test_build_routing_prompt() {
    let nodes = sample_nodes();
    let prompt = llmnet::runtime::router::build_routing_prompt("What were our Q3 earnings?", &nodes);

    assert!(prompt.contains("What were our Q3 earnings?"));
    assert!(prompt.contains("company-2024-q3"));
    assert!(prompt.contains("company-2024-q4"));
    assert!(prompt.contains("outputting ONLY the model name"));
}

#[test]
fn routing_prompt_frame_exact() {
    let p = llmnet::runtime::router::frame_routing_prompt("Q", "[]");
    assert_eq!(
        p,
        "Here is the user prompt: Q\n\nBased on the prompt, please choose from one of these models, outputting ONLY the model name to use:\n[]"
    );
}

#[test]
fn router_error_messages() {
    assert_eq!(
        RouterError::InvalidSelection("x".to_string()).message(),
        "No valid node selected from response: 'x'"
    );
    assert_eq!(
        RouterError::Client(ClientError::Api {
            status: 404,
            message: "nf".to_string()
        })
        .message(),
        "Client error: API error: 404 - nf"
    );
}
