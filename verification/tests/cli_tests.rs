use llmnet::cli::commands::{
    context_add, context_current, context_delete, context_list, context_use, control_target,
    pipeline_path, pipelines_path, server_error_message, CommandError, ContextInfo,
    ValidationResult,
};
use llmnet::cli::display::{
    format_cluster_status, format_container_list, format_context_list, format_current_context,
    format_namespace_list, format_node_list, format_pipeline_detail, format_pipeline_list,
    format_runner_list, format_table, format_validation_result, json_as_u64,
};
use llmnet::cluster::pipeline::{Pipeline, PipelineCondition, PipelineStatus};
use llmnet::config::architecture::{ArchitectureNode, NodeHooks};
use llmnet::config::composition::Composition;
use llmnet::json::JsonValue;
use llmnet::strmap::StrMap;
use llmnet::context::{set_current_context, Config};

#[test]
fn test_context_list() {
    let config = Config::default();
    let contexts = context_list(&config);

    // Should have at least "local"
    assert!(contexts.iter().any(|c| c.name == "local"));
}

#[test]
fn test_context_add_and_list() {
    let mut config = Config::default();
    context_add(&mut config, "test", "http://localhost:8181", None).unwrap();

    let contexts = context_list(&config);
    assert!(contexts.iter().any(|c| c.name == "test"));
}

#[test]
fn test_context_use() {
    let mut config = Config::default();
    context_add(&mut config, "test", "http://localhost:8181", None).unwrap();
    context_use(&mut config, "test").unwrap();

    let (current, _) = context_current(&config).unwrap();
    assert_eq!(current, "test");
}

#[test]
fn test_context_delete() {
    let mut config = Config::default();
    context_add(&mut config, "test", "http://localhost:8181", None).unwrap();

    let removed = context_delete(&mut config, "test").unwrap();
    assert!(removed);

    let contexts = context_list(&config);
    assert!(!contexts.iter().any(|c| c.name == "test"));
}

#[test]
fn context_list_is_sorted_and_marks_current() {
    let mut config = Config::default();
    context_add(&mut config, "zeta", "http://z:1", None).unwrap();
    context_add(&mut config, "alpha", "http://a:1", Some("key")).unwrap();
    context_add(&mut config, "mid", "http://m:1", None).unwrap();
    set_current_context(&mut config, "mid").unwrap();
    let contexts = context_list(&config);
    let names: Vec<&str> = contexts.iter().map(|c| c.name.as_str()).collect();
    assert_eq!(names, vec!["alpha", "local", "mid", "zeta"]);
    let local = contexts.iter().find(|c| c.name == "local").unwrap();
    assert_eq!(local.url, "http://0.0.0.0:8181");
    assert!(!local.is_current);
    assert!(contexts.iter().find(|c| c.name == "mid").unwrap().is_current);
}

#[test]
fn context_list_configured_local_comes_first() {
    let mut config = Config::default();
    context_add(&mut config, "local", "http://other:9", None).unwrap();
    let contexts = context_list(&config);
    assert_eq!(contexts.len(), 2);
    assert_eq!(contexts[0].url, "http://other:9");
    assert!(!contexts[0].is_current);
    assert_eq!(contexts[1].url, "http://0.0.0.0:8181");
    assert!(contexts[1].is_current);
}

#[test]
fn context_use_unknown_fails() {
    let mut config = Config::default();
    match context_use(&mut config, "nowhere") {
        Err(CommandError::Context(_)) => {}
        other => panic!("unexpected {:?}", other),
    }
    assert!(config.current_context.is_none());
}

#[test]
fn context_current_defaults_to_local() {
    let config = Config::default();
    let (name, url) = context_current(&config).unwrap();
    assert_eq!(name, "local");
    assert_eq!(url, "http://0.0.0.0:8181");
}

#[test]
fn context_delete_missing_is_false() {
    let mut config = Config::default();
    assert!(!context_delete(&mut config, "ghost").unwrap());
}

#[test]
fn context_add_with_key() {
    let mut config = Config::default();
    context_add(&mut config, "k", "http://k:1", Some("secret")).unwrap();
    assert_eq!(config.contexts.get("k").unwrap().api_key, Some("secret".to_string()));
}

#[test]
fn test_format_table() {
    let headers = &["NAME", "AGE"];
    let rows = vec![
        vec!["Alice".to_string(), "30".to_string()],
        vec!["Bob".to_string(), "25".to_string()],
    ];

    let output = format_table(headers, rows);
    assert!(output.contains("NAME"));
    assert!(output.contains("Alice"));
    assert!(output.contains("Bob"));
}

#[test]
fn test_format_table_empty() {
    let headers = &["NAME"];
    let rows: Vec<Vec<String>> = vec![];

    let output = format_table(headers, rows);
    assert!(output.contains("No resources found"));
}

#[test]
fn format_table_exact_layout() {
    let headers = &["name", "age"];
    let rows = vec![
        vec!["Alice".to_string(), "30".to_string()],
        vec!["Bob".to_string(), "7".to_string(), "extra".to_string()],
    ];
    let output = format_table(headers, rows);
    assert_eq!(output, "NAME    AGE\nAlice   30 \nBob     7     extra\n");
}

#[test]
fn test_format_context_list() {
    let contexts = vec![
        ContextInfo {
            name: "local".to_string(),
            url: "http://localhost:8181".to_string(),
            is_current: true,
        },
        ContextInfo {
            name: "remote".to_string(),
            url: "http://10.0.0.1:8181".to_string(),
            is_current: false,
        },
    ];

    let output = format_context_list(&contexts);
    assert!(output.contains("local"));
    assert!(output.contains("remote"));
    assert!(output.contains("*")); // Current marker
}

#[test]
fn test_format_current_context() {
    let output = format_current_context("my-cluster", "http://10.0.0.1:8181");
    assert!(output.contains("my-cluster"));
    assert!(output.contains("http://10.0.0.1:8181"));
}

#[test]
fn format_current_context_exact() {
    assert_eq!(format_current_context("a", "b"), "Current context: a (b)\n");
}

#[test]
fn format_container_list_exact() {
    let out = format_container_list(&["web".to_string(), "database".to_string()]);
    assert_eq!(out, "CONTAINER\nweb      \ndatabase \n");
    assert_eq!(format_container_list(&[]), "No resources found.\n");
}

#[test]
fn test_format_validation_valid() {
    let result = ValidationResult { valid: true, models: 2, nodes: 5, error: None };

    let output = format_validation_result(&result, "test.json");
    assert!(output.contains("✓"));
    assert!(output.contains("valid"));
    assert!(output.contains("Models: 2"));
}

#[test]
fn test_format_validation_invalid() {
    let result = ValidationResult {
        valid: false,
        models: 0,
        nodes: 0,
        error: Some("Parse error".to_string()),
    };

    let output = format_validation_result(&result, "test.json");
    assert!(output.contains("✗"));
    assert!(output.contains("invalid"));
    assert!(output.contains("Parse error"));
}

#[test]
fn format_validation_result_exact() {
    let ok = ValidationResult { valid: true, models: 2, nodes: 5, error: None };
    assert_eq!(
        format_validation_result(&ok, "c.json"),
        "✓ c.json is valid\n\n  Models: 2\n  Nodes:  5\n"
    );
    let bad = ValidationResult { valid: false, models: 0, nodes: 0, error: None };
    assert_eq!(format_validation_result(&bad, "c.json"), "✗ c.json is invalid\n\n");
}

fn jtext(s: &str) -> JsonValue {
    JsonValue::String(s.to_string())
}

fn jnum(s: &str) -> JsonValue {
    JsonValue::Number(s.to_string())
}

fn jobj(entries: Vec<(&str, JsonValue)>) -> JsonValue {
    JsonValue::Object(entries.into_iter().map(|(k, v)| (k.to_string(), v)).collect())
}

fn one_node_composition() -> Composition {
    Composition {
        models: StrMap::new(),
        architecture: vec![ArchitectureNode {
            name: "output".to_string(),
            layer: None,
            model: None,
            adapter: "output".to_string(),
            bind_addr: None,
            bind_port: None,
            output_to: None,
            use_case: None,
            condition: None,
            url: None,
            context: None,
            extra_options: StrMap::new(),
            hooks: NodeHooks::default(),
        }],
        secrets: StrMap::new(),
        functions: StrMap::new(),
    }
}

#[test]
fn format_node_list_reads_fields_and_defaults() {
    let full = jobj(vec![
        ("metadata", jobj(vec![("name", jtext("gpu-1"))])),
        (
            "status",
            jobj(vec![
                ("phase", jtext("Ready")),
                ("pipelines", JsonValue::Array(vec![jtext("a"), jtext("b")])),
            ]),
        ),
        ("spec", jobj(vec![("address", jtext("10.0.0.5")), ("port", jnum("9000"))])),
    ]);
    let bare = jobj(vec![]);
    let out = format_node_list(&[full, bare]);
    let line = |a: &str, b: &str, c: &str, d: &str| format!("{:5}   {:7}   {:13}   {:9}\n", a, b, c, d);
    let expected = line("NAME", "STATUS", "ADDRESS", "PIPELINES")
        + &line("gpu-1", "Ready", "10.0.0.5:9000", "2")
        + &line("?", "Unknown", "?:8080", "0");
    assert_eq!(out, expected);
}

#[test]
fn format_node_list_empty() {
    assert_eq!(format_node_list(&[]), "No resources found.\n");
}

#[test]
fn format_namespace_list_names() {
    let ns = vec![
        jobj(vec![("metadata", jobj(vec![("name", jtext("default"))]))]),
        jobj(vec![("metadata", jtext("odd"))]),
    ];
    assert_eq!(format_namespace_list(&ns), "NAME   \ndefault\n?      \n");
}

#[test]
fn format_runner_list_defaults_status_to_running() {
    let runners = vec![jobj(vec![
        ("name", jtext("r1")),
        ("model", jtext("llama")),
        ("endpoint", jtext("http://w:8000")),
    ])];
    let line = |a: &str, b: &str, c: &str, d: &str| format!("{:4}   {:5}   {:13}   {:7}\n", a, b, c, d);
    assert_eq!(
        format_runner_list(&runners),
        line("NAME", "MODEL", "ENDPOINT", "STATUS") + &line("r1", "llama", "http://w:8000", "running")
    );
}

#[test]
fn format_cluster_status_with_and_without_stats() {
    let status = jobj(vec![(
        "stats",
        jobj(vec![
            ("ready_nodes", jnum("2")),
            ("total_nodes", jnum("3")),
            ("ready_pipelines", jnum("1")),
            ("total_pipelines", jnum("4")),
            ("namespaces", jnum("2")),
        ]),
    )]);
    assert_eq!(
        format_cluster_status(&status),
        "Cluster Status\n==============\n\nNodes:     2/3 ready\nPipelines: 1/4 ready\nNamespaces: 2\n"
    );
    assert_eq!(
        format_cluster_status(&jobj(vec![])),
        "Cluster Status\n==============\n\n"
    );
    let partial = jobj(vec![("stats", jobj(vec![("total_nodes", jtext("x"))]))]);
    assert_eq!(
        format_cluster_status(&partial),
        "Cluster Status\n==============\n\nNodes:     0/0 ready\nPipelines: 0/0 ready\nNamespaces: 0\n"
    );
}

#[test]
fn json_as_u64_accepts_plain_digits_only() {
    assert_eq!(json_as_u64(&jnum("42")), Some(42));
    assert_eq!(json_as_u64(&jnum("18446744073709551615")), Some(u64::MAX));
    assert_eq!(json_as_u64(&jnum("18446744073709551616")), None);
    assert_eq!(json_as_u64(&jnum("-1")), None);
    assert_eq!(json_as_u64(&jnum("1.5")), None);
    assert_eq!(json_as_u64(&jtext("7")), None);
}

#[test]
fn format_pipeline_list_rows() {
    let plain = Pipeline::with_id("chat", one_node_composition(), 0, None).with_replicas(3);
    let mut running = Pipeline::with_id("search", one_node_composition(), 1, None);
    running.metadata.namespace = "prod".to_string();
    running.status = Some(PipelineStatus {
        replicas: 1,
        ready_replicas: 1,
        available_replicas: 1,
        unavailable_replicas: 0,
        observed_generation: 1,
        conditions: vec![],
        endpoints: vec![],
    });
    let out = format_pipeline_list(&[plain, running]);
    let line = |a: &str, b: &str, c: &str, d: &str, e: &str| {
        format!("{:9}   {:6}   {:8}   {:5}   {:7}\n", a, b, c, d, e)
    };
    let expected = line("NAMESPACE", "NAME", "REPLICAS", "READY", "STATUS")
        + &line("default", "chat", "3", "0/3", "Unknown")
        + &line("prod", "search", "1", "1/1", "Running");
    assert_eq!(out, expected);
}

#[test]
fn format_pipeline_detail_exact() {
    let mut p = Pipeline::with_id("chat", one_node_composition(), 0, None);
    p.metadata.labels.insert("app".to_string(), "llm".to_string());
    p.status = Some(PipelineStatus {
        replicas: 1,
        ready_replicas: 0,
        available_replicas: 0,
        unavailable_replicas: 1,
        observed_generation: 1,
        conditions: vec![PipelineCondition::new("Ready", "False", "Starting", "", 0)],
        endpoints: vec!["http://10.0.0.1:8080".to_string()],
    });
    let out = format_pipeline_detail(&p);
    assert_eq!(
        out,
        "Name:       chat\n\
         Namespace:  default\n\
         UID:        00000000-0000-0000-0000-000000000000\n\
         Replicas:   1\n\
         Port:       8080\n\
         Labels:\n  app=llm\n\
         \nStatus:\n\
         \x20 Ready Replicas:       0\n\
         \x20 Available Replicas:   0\n\
         \x20 Unavailable Replicas: 1\n\
         \x20 Endpoints:\n    - http://10.0.0.1:8080\n\
         \x20 Conditions:\n    Ready = False (Starting)\n\
         \nComposition:\n  Models: 0\n  Nodes:  1\n"
    );
}

#[test]
fn control_target_uses_current_context() {
    let mut config = Config::default();
    context_add(&mut config, "prod", "http://10.0.0.1:8181", Some("k3y")).unwrap();
    let local = control_target(&config).unwrap();
    assert!(local.api_key.is_none());
    context_use(&mut config, "prod").unwrap();
    let t = control_target(&config).unwrap();
    assert_eq!(t.base_url, "http://10.0.0.1:8181");
    assert_eq!(t.api_key, Some("k3y".to_string()));
    config.current_context = Some("gone".to_string());
    assert!(matches!(control_target(&config), Err(CommandError::Context(_))));
}

#[test]
fn control_plane_paths_and_errors() {
    assert_eq!(pipelines_path(None), "/v1/pipelines");
    assert_eq!(pipelines_path(Some("ml")), "/v1/namespaces/ml/pipelines");
    assert_eq!(pipeline_path("ml", "chat"), "/v1/namespaces/ml/pipelines/chat");
    let body = jobj(vec![("error", jtext("quota exceeded"))]);
    assert_eq!(server_error_message(&body), "quota exceeded");
    assert_eq!(server_error_message(&JsonValue::Null), "Unknown error");
}
