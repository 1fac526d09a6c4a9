use llmnet::config::architecture::{FailureAction, HookConfig, HookMode};
use llmnet::config::functions::{FunctionResult, FunctionType, HttpMethod};
use llmnet::json::JsonValue;
use llmnet::runtime::hooks::{HookContext, HookError, HookExecutor, HookStep};
use llmnet::strmap::StrMap;

fn create_test_context() -> HookContext {
    HookContext::new("test-node", "req-123", "2024-01-01T00:00:00Z")
}

fn text(s: &str) -> JsonValue {
    JsonValue::String(s.to_string())
}

fn is_text(v: Option<&JsonValue>, s: &str) -> bool {
    matches!(v, Some(JsonValue::String(t)) if t == s)
}

fn number_at(v: &JsonValue, k: &str) -> Option<String> {
    match v {
        JsonValue::Object(es) => es
            .iter()
            .rev()
            .find(|(key, _)| key == k)
            .and_then(|(_, x)| match x {
                JsonValue::Number(n) => Some(n.clone()),
                _ => None,
            }),
        _ => None,
    }
}

fn object(entries: &[(&str, &str)]) -> JsonValue {
    JsonValue::Object(
        entries
            .iter()
            .map(|(k, n)| (k.to_string(), JsonValue::Number(n.to_string())))
            .collect(),
    )
}

fn executor() -> HookExecutor {
    HookExecutor::new(StrMap::new())
}

#[test]
fn test_hook_context_build_variables() {
    let mut ctx = create_test_context();
    ctx.prev_node = Some("prev-node".to_string());
    ctx.custom_vars.insert("CUSTOM".to_string(), text("value"));

    let input = text("input data");
    let output = text("output data");

    let vars = ctx.build_variables(&input, Some(&output));

    assert!(is_text(vars.get("NODE"), "test-node"));
    assert!(is_text(vars.get("PREV_NODE"), "prev-node"));
    assert!(is_text(vars.get("INPUT"), "input data"));
    assert!(is_text(vars.get("OUTPUT"), "output data"));
    assert!(is_text(vars.get("CUSTOM"), "value"));
    assert!(vars.contains_key("REQUEST_ID"));
    assert!(vars.contains_key("TIMESTAMP"));
}

#[test]
fn test_evaluate_condition_variable_presence() {
    let mut vars = StrMap::new();
    vars.insert("FLAG".to_string(), JsonValue::Bool(true));
    vars.insert("EMPTY".to_string(), text(""));
    vars.insert("DATA".to_string(), text("hello"));

    let hook_executor = executor();

    assert!(hook_executor.evaluate_condition("$FLAG", &vars));
    assert!(!hook_executor.evaluate_condition("$EMPTY", &vars));
    assert!(hook_executor.evaluate_condition("$DATA", &vars));
    assert!(!hook_executor.evaluate_condition("$MISSING", &vars));
}

#[test]
fn hooks_test_evaluate_condition_equality() {
    let mut vars = StrMap::new();
    vars.insert("STATUS".to_string(), text("ok"));
    vars.insert("COUNT".to_string(), JsonValue::Number("42".to_string()));

    let hook_executor = executor();

    assert!(hook_executor.evaluate_condition("$STATUS == \"ok\"", &vars));
    assert!(!hook_executor.evaluate_condition("$STATUS == \"error\"", &vars));
    assert!(hook_executor.evaluate_condition("$COUNT == 42", &vars));
}

#[test]
fn hooks_test_evaluate_condition_inequality() {
    let mut vars = StrMap::new();
    vars.insert("STATUS".to_string(), text("ok"));

    let hook_executor = executor();

    assert!(hook_executor.evaluate_condition("$STATUS != \"error\"", &vars));
    assert!(!hook_executor.evaluate_condition("$STATUS != \"ok\"", &vars));
}

#[test]
fn test_apply_transform_merge_objects() {
    let hook_executor = executor();

    let current = object(&[("a", "1"), ("b", "2")]);
    let transform = object(&[("b", "3"), ("c", "4")]);

    let result = hook_executor.apply_transform(current, transform);
    assert_eq!(number_at(&result, "a"), Some("1".to_string()));
    assert_eq!(number_at(&result, "b"), Some("3".to_string())); // Updated
    assert_eq!(number_at(&result, "c"), Some("4".to_string())); // Added
}

#[test]
fn test_apply_transform_replace() {
    let hook_executor = executor();

    let current = text("old");
    let transform = text("new");

    let result = hook_executor.apply_transform(current, transform);
    assert!(matches!(result, JsonValue::String(ref s) if s == "new"));
}

fn hook(function: &str, mode: HookMode, on_failure: FailureAction, condition: Option<&str>) -> HookConfig {
    HookConfig {
        function: function.to_string(),
        mode,
        on_failure,
        condition: condition.map(|c| c.to_string()),
    }
}

fn rest_function() -> FunctionType {
    FunctionType::Rest {
        method: HttpMethod::Post,
        url: "http://localhost/hook".to_string(),
        headers: StrMap::new(),
        body: None,
        timeout: 30,
    }
}

#[test]
fn test_next_hook_skips_unmet_condition() {
    let mut functions = StrMap::new();
    functions.insert("audit".to_string(), rest_function());
    let hook_executor = HookExecutor::new(functions);
    let hooks = vec![
        hook("audit", HookMode::Observe, FailureAction::Continue, Some("$MISSING")),
        hook("audit", HookMode::Transform, FailureAction::Abort, None),
    ];
    let ctx = create_test_context();
    let data = text("payload");
    match hook_executor.next_hook(&hooks, 0, &data, None, &ctx) {
        Ok(HookStep::Run { index, mode, variables, .. }) => {
            assert_eq!(index, 1);
            assert_eq!(mode, HookMode::Transform);
            assert!(is_text(variables.get("INPUT"), "payload"));
            assert!(is_text(variables.get("OUTPUT"), "payload"));
        }
        other => panic!("unexpected step: {:?}", other),
    }
    assert!(matches!(
        hook_executor.next_hook(&hooks, 2, &data, None, &ctx),
        Ok(HookStep::Done)
    ));
}

#[test]
fn test_next_hook_missing_function() {
    let hook_executor = executor();
    let hooks = vec![hook("nowhere", HookMode::Observe, FailureAction::Continue, None)];
    let ctx = create_test_context();
    let data = text("payload");
    match hook_executor.next_hook(&hooks, 0, &data, None, &ctx) {
        Err(HookError::FunctionNotFound(f)) => assert_eq!(f, "nowhere"),
        other => panic!("unexpected step: {:?}", other),
    }
}

#[test]
fn test_after_transform_outcomes() {
    let hook_executor = executor();
    let abort = hook("fix", HookMode::Transform, FailureAction::Abort, None);
    let keep = hook("fix", HookMode::Transform, FailureAction::Continue, None);

    let ok = FunctionResult::success(Some(text("changed")), 5);
    let r = hook_executor.after_transform(&abort, text("data"), Ok(ok));
    assert!(matches!(r, Ok(JsonValue::String(ref s)) if s == "changed"));

    let failed = FunctionResult::failure("boom".to_string(), 5);
    let r = hook_executor.after_transform(&abort, text("data"), Ok(failed));
    match r {
        Err(HookError::Aborted(m)) => assert_eq!(m, "Hook 'fix' failed: boom"),
        other => panic!("unexpected outcome: {:?}", other),
    }

    let failed = FunctionResult::failure("boom".to_string(), 5);
    let r = hook_executor.after_transform(&keep, text("data"), Ok(failed));
    assert!(matches!(r, Ok(JsonValue::String(ref s)) if s == "data"));

    let r = hook_executor.after_transform(&keep, text("data"), Err("no executor".to_string()));
    assert!(matches!(r, Err(HookError::ExecutionFailed(ref m)) if m == "no executor"));
}

#[test]
fn after_hook_observe_keeps_data() {
    let hook_executor = executor();
    let observe = hook("audit", HookMode::Observe, FailureAction::Abort, None);
    let failed = FunctionResult::failure("boom".to_string(), 5);
    match hook_executor.after_hook(&observe, 2, text("data"), Some(Ok(failed))) {
        Ok((next, JsonValue::String(s))) => {
            assert_eq!(next, 3);
            assert_eq!(s, "data");
        }
        other => panic!("unexpected outcome: {:?}", other),
    }
    match hook_executor.after_hook(&observe, 0, text("data"), None) {
        Ok((next, JsonValue::String(s))) => {
            assert_eq!(next, 1);
            assert_eq!(s, "data");
        }
        other => panic!("unexpected outcome: {:?}", other),
    }
    let transform = hook("fix", HookMode::Transform, FailureAction::Abort, None);
    let ok = FunctionResult::success(Some(text("changed")), 5);
    match hook_executor.after_hook(&transform, 0, text("data"), Some(Ok(ok))) {
        Ok((1, JsonValue::String(s))) => assert_eq!(s, "changed"),
        other => panic!("unexpected outcome: {:?}", other),
    }
    let failed = FunctionResult::failure("boom".to_string(), 5);
    assert!(matches!(
        hook_executor.after_hook(&transform, 0, text("data"), Some(Ok(failed))),
        Err(HookError::Aborted(_))
    ));
}
