use llmnet::json::JsonValue;
use llmnet::runtime::ollama::{
    create_modelfile, default_port, endpoint_url, generate_modelfile, merge_parameters,
    parse_modelfile, Modelfile, ModelfileError,
};
use llmnet::strmap::StrMap;

#[test]
fn test_parse_simple_modelfile() {
    let content = r#"
FROM tinyllama:1.1b

PARAMETER temperature 0.7
PARAMETER num_ctx 2048

SYSTEM You are a helpful assistant.
"#;

    let modelfile = parse_modelfile(content).unwrap();
    assert_eq!(modelfile.from, "tinyllama:1.1b");
    assert_eq!(modelfile.parameters.len(), 2);
    assert_eq!(
        modelfile.parameters[0],
        ("temperature".to_string(), "0.7".to_string())
    );
    assert_eq!(
        modelfile.parameters[1],
        ("num_ctx".to_string(), "2048".to_string())
    );
    assert_eq!(
        modelfile.system,
        Some("You are a helpful assistant.".to_string())
    );
}

#[test]
fn test_parse_multiline_system() {
    let content = r#"
FROM llama2

SYSTEM """
You are a helpful assistant.
You always respond in a friendly manner.
"""
"#;

    let modelfile = parse_modelfile(content).unwrap();
    assert_eq!(modelfile.from, "llama2");
    assert!(modelfile.system.unwrap().contains("friendly manner"));
}

#[test]
fn test_parse_with_adapters() {
    let content = r#"
FROM llama2

ADAPTER /path/to/lora1.gguf
ADAPTER /path/to/lora2.gguf
"#;

    let modelfile = parse_modelfile(content).unwrap();
    assert_eq!(modelfile.adapters.len(), 2);
}

#[test]
fn test_parse_missing_from() {
    let content = "PARAMETER temperature 0.7";
    let result = parse_modelfile(content);
    assert!(matches!(result, Err(ModelfileError::MissingFrom)));
}

#[test]
fn test_generate_modelfile() {
    let modelfile = Modelfile {
        from: "tinyllama:1.1b".to_string(),
        parameters: vec![
            ("temperature".to_string(), "0.7".to_string()),
            ("num_ctx".to_string(), "2048".to_string()),
        ],
        system: Some("You are helpful.".to_string()),
        template: None,
        adapters: vec![],
        license: None,
        messages: vec![],
    };

    let output = generate_modelfile(&modelfile);
    assert!(output.contains("FROM tinyllama:1.1b"));
    assert!(output.contains("PARAMETER temperature 0.7"));
    assert!(output.contains("PARAMETER num_ctx 2048"));
    assert!(output.contains("SYSTEM You are helpful."));
}

#[test]
fn test_create_modelfile() {
    let modelfile = create_modelfile("tinyllama:1.1b");
    assert_eq!(modelfile.from, "tinyllama:1.1b");
    assert!(modelfile.parameters.is_empty());
}

#[test]
fn test_roundtrip() {
    let original = Modelfile {
        from: "llama2".to_string(),
        parameters: vec![("temperature".to_string(), "0.7".to_string())],
        system: Some("Be helpful".to_string()),
        template: None,
        adapters: vec!["/path/to/adapter.gguf".to_string()],
        license: None,
        messages: vec![],
    };

    let generated = generate_modelfile(&original);
    let parsed = parse_modelfile(&generated).unwrap();

    assert_eq!(parsed.from, original.from);
    assert_eq!(parsed.parameters, original.parameters);
    assert_eq!(parsed.system, original.system);
    assert_eq!(parsed.adapters, original.adapters);
}

#[test]
fn ollama_test_endpoint_url() {
    assert_eq!(
        endpoint_url("localhost", 11434),
        "http://localhost:11434/v1"
    );
    assert_eq!(
        endpoint_url("192.168.1.100", 8080),
        "http://192.168.1.100:8080/v1"
    );
}

#[test]
fn test_parse_errors_carry_line_numbers() {
    match parse_modelfile("FROM x\nPARAMETER lonely\n") {
        Err(ModelfileError::ParseError(line, msg)) => {
            assert_eq!(line, 2);
            assert_eq!(msg, "PARAMETER requires key and value");
        }
        _ => panic!("expected a parse error"),
    }
    match parse_modelfile("# comment\nFROM\n") {
        Err(ModelfileError::ParseError(line, msg)) => {
            assert_eq!(line, 2);
            assert_eq!(msg, "FROM requires a model name");
        }
        _ => panic!("expected a parse error"),
    }
}

#[test]
fn test_parse_lowercase_directives_and_messages() {
    let m = parse_modelfile("from base\nmessage user hello there\nlicense MIT\ntemplate {{ .Prompt }}\n").unwrap();
    assert_eq!(m.from, "base");
    assert_eq!(m.messages, vec![("user".to_string(), "hello there".to_string())]);
    assert_eq!(m.license, Some("MIT".to_string()));
    assert_eq!(m.template, Some("{{ .Prompt }}".to_string()));
}

#[test]
fn test_generate_multiline_system() {
    let mut m = create_modelfile("base");
    m.system = Some("line one\nline two".to_string());
    let text = generate_modelfile(&m);
    assert_eq!(text, "FROM base\nSYSTEM \"\"\"\nline one\nline two\n\"\"\"\n");
    let back = parse_modelfile(&text).unwrap();
    assert_eq!(back.system, Some("line one\nline two".to_string()));
}

#[test]
fn test_generate_exact_text() {
    let m = Modelfile {
        from: "m".to_string(),
        parameters: vec![("k".to_string(), "v".to_string())],
        system: None,
        template: None,
        adapters: vec!["a.gguf".to_string()],
        license: None,
        messages: vec![("user".to_string(), "hi".to_string())],
    };
    assert_eq!(
        generate_modelfile(&m),
        "FROM m\nPARAMETER k v\nADAPTER a.gguf\nMESSAGE user hi\n"
    );
}

#[test]
fn test_ollama_default_port() {
    assert_eq!(default_port(), 11434);
}

#[test]
fn test_merge_parameters() {
    let base = Modelfile {
        from: "llama2".to_string(),
        parameters: vec![("temperature".to_string(), "0.5".to_string())],
        ..Default::default()
    };

    let mut params = StrMap::new();
    params.insert("temperature".to_string(), JsonValue::Number("0.9".to_string()));
    params.insert("num_ctx".to_string(), JsonValue::Number("4096".to_string()));
    params.insert("system".to_string(), JsonValue::String("New system prompt".to_string()));

    let merged = merge_parameters(base, &params, &StrMap::new());

    // temperature should be overwritten
    assert!(merged
        .parameters
        .iter()
        .any(|(k, v)| k == "temperature" && v == "0.9"));
    // num_ctx should be added
    assert!(merged
        .parameters
        .iter()
        .any(|(k, v)| k == "num_ctx" && v == "4096"));
    // system should be set
    assert_eq!(merged.system, Some("New system prompt".to_string()));
}

#[test]
fn merge_parameters_exact() {
    let base = Modelfile {
        from: "llama2".to_string(),
        parameters: vec![
            ("stop".to_string(), "a".to_string()),
            ("top_k".to_string(), "40".to_string()),
            ("stop".to_string(), "b".to_string()),
        ],
        ..Default::default()
    };
    let mut params = StrMap::new();
    params.insert(
        "stop".to_string(),
        JsonValue::Array(vec![JsonValue::String("END".to_string())]),
    );
    params.insert("template".to_string(), JsonValue::Bool(true));
    params.insert("mirostat".to_string(), JsonValue::Bool(false));
    params.insert("ignored".to_string(), JsonValue::Null);
    let mut texts = StrMap::new();
    texts.insert("stop".to_string(), "[\"END\"]".to_string());
    let merged = merge_parameters(base, &params, &texts);
    assert_eq!(
        merged.parameters,
        vec![
            ("top_k".to_string(), "40".to_string()),
            ("stop".to_string(), "[\"END\"]".to_string()),
            ("mirostat".to_string(), "false".to_string()),
        ]
    );
    assert_eq!(merged.template, None);
}
