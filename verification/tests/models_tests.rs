use llmnet::config::architecture::{ArchitectureNode, NodeHooks};
use llmnet::config::functions::{
    substitute_all, substitute_variables, substitute_variables_in_map,
    substitute_variables_in_value, FunctionResult,
};
use llmnet::config::secrets::SecretsManager;
use llmnet::json::{json_to_string, JsonValue};
use llmnet::config::models::{ExternalModel, ModelConfig, ModelDefinition, RunnerType};
use llmnet::runtime::docker::DockerConfig;
use llmnet::strmap::StrMap;

#[test]
fn test_effective_endpoint() {
    let config = ModelConfig::ollama("tinyllama:1.1b");
    assert_eq!(
        config.effective_endpoint("localhost", None),
        Some("http://localhost:11434/v1".to_string())
    );

    let config = ModelConfig::vllm("llama2");
    assert_eq!(
        config.effective_endpoint("0.0.0.0", Some(9000)),
        Some("http://0.0.0.0:9000/v1".to_string())
    );
}

#[test]
fn test_legacy_to_config() {
    let legacy = ModelDefinition::External(ExternalModel {
        interface: "openai-api".to_string(),
        url: "http://test".to_string(),
        api_key: Some("key".to_string()),
    });

    let config = legacy.to_config();
    assert_eq!(config.runner, RunnerType::External);
    assert_eq!(config.endpoint, Some("http://test".to_string()));
}

#[test]
fn test_docker_builder() {
    let docker_config = DockerConfig {
        image: Some("my-image:v1".to_string()),
        network: "host".to_string(),
        gpus: Some("all".to_string()),
        ..Default::default()
    };

    let config = ModelConfig::docker("my-model", docker_config);
    assert_eq!(config.runner, RunnerType::Docker);
    assert_eq!(config.source, Some("my-model".to_string()));
    assert!(config.docker.is_some());
}

#[test]
fn test_effective_bind_addr_default() {
    let node = ArchitectureNode {
        name: "test".to_string(),
        layer: None,
        model: None,
        adapter: "output".to_string(),
        bind_addr: None,
        bind_port: None,
        output_to: None,
        use_case: None,
        condition: None,
        url: None,
        context: None,
        extra_options: StrMap::new(),
        hooks: NodeHooks::default(),
    };
    assert_eq!(node.effective_bind_addr(), "0.0.0.0");
}

#[test]
fn test_function_result_failure() {
    let result = FunctionResult::failure("connection refused".to_string(), 50);
    assert!(!result.success);
    assert!(result.output.is_none());
    assert_eq!(result.error, Some("connection refused".to_string()));
}

#[test]
fn test_external_endpoint_is_kept() {
    let config = ModelConfig::external("http://api.example.com/v1");
    assert_eq!(
        config.effective_endpoint("localhost", Some(1234)),
        Some("http://api.example.com/v1".to_string())
    );
}

#[test]
fn test_function_result_success() {
    let result = FunctionResult::success(Some(JsonValue::String("ok".to_string())), 100);
    assert!(result.success);
    assert!(result.output.is_some());
    assert!(result.error.is_none());
    assert_eq!(result.duration_ms, 100);
}

#[test]
fn test_substitute_variables_basic() {
    let mut vars = StrMap::new();
    vars.insert("NODE".to_string(), JsonValue::String("router".to_string()));
    vars.insert("INPUT".to_string(), JsonValue::String("hello".to_string()));

    let result = substitute_variables("Node: $NODE, Input: $INPUT", &vars);
    assert_eq!(result, "Node: router, Input: hello");
}

#[test]
fn test_substitute_variables_number() {
    let mut vars = StrMap::new();
    vars.insert("COUNT".to_string(), JsonValue::Number("42".to_string()));

    let result = substitute_variables("Count: $COUNT", &vars);
    assert_eq!(result, "Count: 42");
}

fn member<'a>(v: &'a JsonValue, k: &str) -> &'a JsonValue {
    match v {
        JsonValue::Object(es) => &es.iter().rev().find(|(key, _)| key == k).unwrap().1,
        _ => panic!("not an object"),
    }
}

fn is_text(v: &JsonValue, s: &str) -> bool {
    matches!(v, JsonValue::String(t) if t == s)
}

#[test]
fn test_substitute_variables_in_value() {
    let mut vars = StrMap::new();
    vars.insert("KEY".to_string(), JsonValue::String("value".to_string()));

    let value = JsonValue::Object(vec![
        ("field".to_string(), JsonValue::String("$KEY".to_string())),
        (
            "nested".to_string(),
            JsonValue::Object(vec![("inner".to_string(), JsonValue::String("$KEY".to_string()))]),
        ),
    ]);

    let result = substitute_variables_in_value(&value, &vars);
    assert!(is_text(member(&result, "field"), "value"));
    assert!(is_text(member(member(&result, "nested"), "inner"), "value"));
}

#[test]
fn substitute_variables_value_texts() {
    let mut vars = StrMap::new();
    vars.insert("N".to_string(), JsonValue::Null);
    vars.insert("B".to_string(), JsonValue::Bool(false));
    vars.insert(
        "A".to_string(),
        JsonValue::Array(vec![
            JsonValue::Number("1".to_string()),
            JsonValue::String("x\"y".to_string()),
        ]),
    );
    vars.insert(
        "O".to_string(),
        JsonValue::Object(vec![("k".to_string(), JsonValue::String("v\n".to_string()))]),
    );
    assert_eq!(
        substitute_variables("$N $B $A $O $Z", &vars),
        "null false [1,\"x\\\"y\"] {\"k\":\"v\\n\"} $Z"
    );
    // Earlier variables are replaced first: `$NAME` loses its `$N` to the null.
    assert_eq!(substitute_variables("$NAME", &vars), "nullAME");
}

#[test]
fn substitute_variables_in_map_and_secrets() {
    let mut vars = StrMap::new();
    vars.insert("USER".to_string(), JsonValue::String("ann".to_string()));
    let mut headers = StrMap::new();
    headers.insert("X-User".to_string(), "$USER".to_string());
    let out = substitute_variables_in_map(&headers, &vars);
    assert_eq!(out.get("X-User"), Some(&"ann".to_string()));

    let mut secrets = SecretsManager::new();
    secrets.store("auth", "TOKEN", "t0k".to_string());
    assert_eq!(
        substitute_all(&secrets, "$USER:$secrets.auth.TOKEN", &vars),
        "ann:t0k"
    );
}

#[test]
fn json_to_string_escapes() {
    let v = JsonValue::Array(vec![
        JsonValue::Null,
        JsonValue::Bool(true),
        JsonValue::String("\u{1}\t\\".to_string()),
        JsonValue::Object(vec![]),
    ]);
    assert_eq!(json_to_string(&v), "[null,true,\"\\u0001\\t\\\\\",{}]");
}

#[test]
fn json_to_string_prints_objects_as_maps() {
    let v = JsonValue::Object(vec![
        ("b".to_string(), JsonValue::Number("1".to_string())),
        ("a".to_string(), JsonValue::Number("2".to_string())),
        ("a".to_string(), JsonValue::Number("3".to_string())),
    ]);
    assert_eq!(json_to_string(&v), "{\"a\":3,\"b\":1}");
}
