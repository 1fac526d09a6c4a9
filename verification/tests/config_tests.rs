use llmnet::config::architecture::{FailureAction, HookMode, NodeHooks};
use llmnet::config::composition::strip_jsonc_comments;
use llmnet::config::models::RunnerType;
use llmnet::config::secrets::{
    filter_variables, find_secret_references, parse_env_content, parse_secret_reference,
    substitute_secrets, substitute_secrets_in_value, SecretsManager,
};
use llmnet::json::JsonValue;
use llmnet::config::validation::{
    check_context_length, check_runner_support, format_validation_results, ValidationResult,
    ValidationSeverity,
};
use llmnet::strmap::StrMap;

#[test]
fn test_validation_result_builder() {
    let result = ValidationResult::new()
        .info("TEST_INFO", "Info message")
        .warning("TEST_WARN", "Warning message", Some("Do this"))
        .error("TEST_ERR", "Error message", None);

    assert_eq!(result.messages.len(), 3);
    assert!(result.has_errors());
    assert!(result.has_warnings());
    assert!(!result.passed);
}

#[test]
fn test_format_validation_results() {
    let mut results = StrMap::new();
    results.insert(
        "test-model".to_string(),
        ValidationResult::new().warning("TEST_WARN", "This is a warning", Some("Fix it this way")),
    );

    let output = format_validation_results(&results);
    assert!(output.contains("[test-model]"));
    assert!(output.contains("WARN"));
    assert!(output.contains("Fix it this way"));
}

#[test]
fn validation_warnings_keep_passed() {
    let result = ValidationResult::new().info("I", "i").warning("W", "w", None);
    assert!(result.passed);
    assert!(!result.has_errors());
    assert!(result.has_warnings());
    assert_eq!(result.messages[1].severity, ValidationSeverity::Warning);
}

#[test]
fn test_parse_env_content_basic() {
    let content = r#"
KEY1=value1
KEY2=value2
"#;
    let result = parse_env_content(content);
    assert_eq!(result.get("KEY1"), Some(&"value1".to_string()));
    assert_eq!(result.get("KEY2"), Some(&"value2".to_string()));
}

#[test]
fn test_parse_env_content_with_comments() {
    let content = r#"
# This is a comment
KEY1=value1
# Another comment
KEY2=value2
"#;
    let result = parse_env_content(content);
    assert_eq!(result.len(), 2);
    assert!(!result.contains_key("# This is a comment"));
}

#[test]
fn test_parse_env_content_quoted_values() {
    let content = r#"
DOUBLE="double quoted"
SINGLE='single quoted'
UNQUOTED=no quotes
"#;
    let result = parse_env_content(content);
    assert_eq!(result.get("DOUBLE"), Some(&"double quoted".to_string()));
    assert_eq!(result.get("SINGLE"), Some(&"single quoted".to_string()));
    assert_eq!(result.get("UNQUOTED"), Some(&"no quotes".to_string()));
}

#[test]
fn test_parse_env_content_empty_value() {
    let content = "EMPTY=";
    let result = parse_env_content(content);
    assert_eq!(result.get("EMPTY"), Some(&"".to_string()));
}

#[test]
fn parse_env_content_edge_cases() {
    let content = "  A = 1 = 2  \n=novalue\nNOEQ\nB=\"\nC='x'\nA=again\r\n";
    let result = parse_env_content(content);
    assert_eq!(result.get("A"), Some(&"again".to_string()));
    assert_eq!(result.get("B"), Some(&"\"".to_string()));
    assert_eq!(result.get("C"), Some(&"x".to_string()));
    assert!(!result.contains_key(""));
    assert!(!result.contains_key("NOEQ"));
    assert_eq!(result.len(), 3);
}

#[test]
fn test_filter_variables_empty_filter() {
    let mut values = StrMap::new();
    values.insert("A".to_string(), "1".to_string());
    values.insert("B".to_string(), "2".to_string());

    let filtered = filter_variables(values, &[]);
    assert_eq!(filtered.len(), 2);
}

#[test]
fn test_filter_variables_with_filter() {
    let mut values = StrMap::new();
    values.insert("A".to_string(), "1".to_string());
    values.insert("B".to_string(), "2".to_string());
    values.insert("C".to_string(), "3".to_string());

    let filtered = filter_variables(values, &["A".to_string(), "C".to_string()]);
    assert_eq!(filtered.len(), 2);
    assert!(filtered.contains_key("A"));
    assert!(filtered.contains_key("C"));
    assert!(!filtered.contains_key("B"));
}

#[test]
fn filter_variables_ignores_unknown_names() {
    let mut values = StrMap::new();
    values.insert("A".to_string(), "1".to_string());
    let filtered = filter_variables(values, &["Z".to_string()]);
    assert!(filtered.is_empty());
}

#[test]
fn test_strip_line_comments() {
    let input = r#"{
            // This is a comment
            "key": "value"
        }"#;
    let result = strip_jsonc_comments(input);
    assert!(!result.contains("This is a comment"));
    assert!(result.contains("\"key\": \"value\""));
}

#[test]
fn test_strip_block_comments() {
    let input = r#"{
            /* Block comment */
            "key": "value"
        }"#;
    let result = strip_jsonc_comments(input);
    assert!(!result.contains("Block comment"));
    assert!(result.contains("\"key\": \"value\""));
}

#[test]
fn test_preserve_strings_with_slashes() {
    let input = r#"{"url": "http://example.com"}"#;
    let result = strip_jsonc_comments(input);
    assert_eq!(result, input);
}

#[test]
fn test_preserve_strings_with_comment_like_content() {
    let input = r#"{"desc": "use // for comments"}"#;
    let result = strip_jsonc_comments(input);
    assert_eq!(result, input);
}

#[test]
fn strip_comments_exact() {
    assert_eq!(strip_jsonc_comments("a// x\nb/* y */c"), "a\nbc");
    assert_eq!(strip_jsonc_comments(r#""\"//" // z"#), r#""\"//" "#);
    assert_eq!(strip_jsonc_comments("/* open"), "");
    assert_eq!(strip_jsonc_comments("no comments"), "no comments");
}

#[test]
fn test_runner_default_ports() {
    assert_eq!(RunnerType::External.default_port(), None);
    assert_eq!(RunnerType::Ollama.default_port(), Some(11434));
    assert_eq!(RunnerType::Vllm.default_port(), Some(8000));
    assert_eq!(RunnerType::LlamaCpp.default_port(), Some(8080));
}

#[test]
fn test_is_local_runner() {
    assert!(!RunnerType::External.is_local_runner());
    assert!(RunnerType::Ollama.is_local_runner());
    assert!(RunnerType::Vllm.is_local_runner());
    assert!(RunnerType::LlamaCpp.is_local_runner());
    assert!(!RunnerType::Docker.is_local_runner());
}

#[test]
fn local_runners_have_default_ports() {
    for r in [RunnerType::External, RunnerType::Ollama, RunnerType::Vllm, RunnerType::LlamaCpp, RunnerType::Docker] {
        if r.is_local_runner() {
            assert!(r.default_port().is_some());
        }
    }
    assert_eq!(RunnerType::default(), RunnerType::External);
}

#[test]
fn test_node_hooks_default() {
    let hooks = NodeHooks::default();
    assert!(hooks.pre.is_empty());
    assert!(hooks.post.is_empty());
}

#[test]
fn hook_defaults() {
    assert_eq!(HookMode::default(), HookMode::Observe);
    assert_eq!(FailureAction::default(), FailureAction::Continue);
}

#[test]
fn test_parse_secret_reference_valid() {
    let result = parse_secret_reference("$secrets.dgx-creds.DGX_API_KEY");
    assert!(result.is_some());
    let r = result.unwrap();
    assert_eq!(r.secret_name, "dgx-creds");
    assert_eq!(r.variable, "DGX_API_KEY");
}

#[test]
fn test_parse_secret_reference_invalid() {
    assert!(parse_secret_reference("not a secret").is_none());
    assert!(parse_secret_reference("$secrets.missing").is_none());
    assert!(parse_secret_reference("$other.name.var").is_none());
}

#[test]
fn parse_secret_reference_is_anchored() {
    assert!(parse_secret_reference("$secrets.a.b-c").is_none());
    assert!(parse_secret_reference(" $secrets.a.b").is_none());
    assert!(parse_secret_reference("$secrets.a.b ").is_none());
    assert!(parse_secret_reference("$secrets..b").is_none());
}

#[test]
fn test_find_secret_references() {
    let text = "Bearer $secrets.auth.TOKEN and $secrets.db.PASSWORD here";
    let refs = find_secret_references(text);
    assert_eq!(refs.len(), 2);
    assert_eq!(refs[0].secret_name, "auth");
    assert_eq!(refs[0].variable, "TOKEN");
    assert_eq!(refs[1].secret_name, "db");
    assert_eq!(refs[1].variable, "PASSWORD");
}

#[test]
fn find_secret_references_stops_at_non_name_chars() {
    let refs = find_secret_references("x$secrets.my-app.KEY-2,$secrets.$secrets.a.b");
    assert_eq!(refs.len(), 2);
    assert_eq!(refs[0].secret_name, "my-app");
    assert_eq!(refs[0].variable, "KEY");
    assert_eq!(refs[1].secret_name, "a");
    assert_eq!(refs[1].variable, "b");
}

#[test]
fn test_substitute_secrets() {
    let mut secrets = StrMap::new();
    secrets.insert("auth.TOKEN".to_string(), "secret123".to_string());
    secrets.insert("db.PASSWORD".to_string(), "dbpass".to_string());

    let result = substitute_secrets("Bearer $secrets.auth.TOKEN", &secrets);
    assert_eq!(result, "Bearer secret123");
}

#[test]
fn substitute_secrets_unknown_is_empty() {
    let secrets = StrMap::new();
    assert_eq!(substitute_secrets("[$secrets.x.Y]", &secrets), "[]");
    assert_eq!(substitute_secrets("no refs", &secrets), "no refs");
}

fn jtext(s: &str) -> JsonValue {
    JsonValue::String(s.to_string())
}

fn member<'a>(v: &'a JsonValue, k: &str) -> &'a JsonValue {
    match v {
        JsonValue::Object(es) => &es.iter().rev().find(|(key, _)| key == k).unwrap().1,
        _ => panic!("not an object"),
    }
}

fn text_of(v: &JsonValue) -> &str {
    match v {
        JsonValue::String(s) => s,
        _ => panic!("not a string"),
    }
}

#[test]
fn test_substitute_secrets_in_value() {
    let mut secrets = StrMap::new();
    secrets.insert("auth.KEY".to_string(), "abc123".to_string());

    let value = JsonValue::Object(vec![
        ("header".to_string(), jtext("$secrets.auth.KEY")),
        (
            "nested".to_string(),
            JsonValue::Object(vec![("value".to_string(), jtext("$secrets.auth.KEY"))]),
        ),
        (
            "array".to_string(),
            JsonValue::Array(vec![jtext("$secrets.auth.KEY"), jtext("plain")]),
        ),
    ]);

    let result = substitute_secrets_in_value(&value, &secrets);
    assert_eq!(text_of(member(&result, "header")), "abc123");
    assert_eq!(text_of(member(member(&result, "nested"), "value")), "abc123");
    match member(&result, "array") {
        JsonValue::Array(items) => {
            assert_eq!(text_of(&items[0]), "abc123");
            assert_eq!(text_of(&items[1]), "plain");
        }
        _ => panic!("not an array"),
    }
}

#[test]
fn test_secrets_manager_resolve() {
    let mut manager = SecretsManager::new();
    manager.store("test", "VAR", "value".to_string());

    assert_eq!(manager.resolve("test", "VAR"), Some("value".to_string()));
    assert_eq!(manager.resolve("test", "MISSING"), None);
    assert_eq!(manager.substitute("v=$secrets.test.VAR"), "v=value");
    assert_eq!(manager.all_secrets().get("test.VAR"), Some(&"value".to_string()));
}

#[test]
fn strip_jsonc_comments_twice_is_once() {
    let inputs = [
        "{ /* a */ \"x\": 1 // note\n}",
        "\"a//b\" /* \" */ \"c\"",
        "/ /* unterminated",
        "plain text",
    ];
    for s in inputs {
        let once = strip_jsonc_comments(s);
        assert_eq!(strip_jsonc_comments(&once), once);
    }
    assert_eq!(strip_jsonc_comments("{\"u\": \"http://x\"}"), "{\"u\": \"http://x\"}");
}

#[test]
fn validation_passed_tracks_errors() {
    let r = ValidationResult::new().info("I", "i").warning("W", "w", None);
    assert_eq!(r.passed, !r.has_errors());
    let r = r.error("E", "e", None).info("I2", "i2");
    assert_eq!(r.passed, !r.has_errors());
    assert!(!r.passed);
}

#[test]
fn runner_support_check() {
    let r = check_runner_support(ValidationResult::new(), RunnerType::Vllm, "Jetson Nano", false);
    assert!(!r.passed);
    assert_eq!(r.messages[0].code, "RUNNER_UNSUPPORTED");
    assert_eq!(r.messages[0].message, "vLLM requires CUDA which is not available on Jetson Nano");
    let r = check_runner_support(ValidationResult::new(), RunnerType::Vllm, "DGX", true);
    assert!(r.passed && r.messages.is_empty());
    let r = check_runner_support(ValidationResult::new(), RunnerType::LlamaCpp, "Pi", false);
    assert!(r.messages.is_empty());
}

#[test]
fn context_length_check() {
    let mut params = StrMap::new();
    params.insert("max_input_len".to_string(), JsonValue::Number("8192".to_string()));
    let r = check_context_length(ValidationResult::new(), &params, 4096, "Orin");
    assert!(r.passed);
    assert_eq!(r.messages.len(), 1);
    assert_eq!(r.messages[0].severity, ValidationSeverity::Warning);
    assert_eq!(r.messages[0].message, "Context length 8192 exceeds recommended 4096 for Orin");
    assert_eq!(
        r.messages[0].suggestion,
        Some("Reduce max_input_len to 4096 or lower".to_string())
    );
    let r = check_context_length(ValidationResult::new(), &params, 8192, "Orin");
    assert!(r.messages.is_empty());
    let r = check_context_length(ValidationResult::new(), &StrMap::new(), 1, "Orin");
    assert!(r.messages.is_empty());
}
