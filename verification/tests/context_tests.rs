use llmnet::context::{
    add_context, get_context, get_current_context, list_contexts, remove_context,
    set_current_context, Config, Context, ContextError, DEFAULT_CONTROL_PLANE_PORT,
};

#[test]
fn test_default_config() {
    let config = Config::default();
    assert!(config.current_context.is_none());
    assert!(config.contexts.is_empty());
    assert_eq!(config.local.port, DEFAULT_CONTROL_PLANE_PORT);
}

#[test]
fn test_add_context() {
    let mut config = Config::default();
    let ctx = Context::new("remote", "http://192.168.1.1:8181");
    add_context(&mut config, ctx);

    assert!(config.contexts.contains_key("remote"));
}

#[test]
fn test_remove_context() {
    let mut config = Config::default();
    add_context(&mut config, Context::new("test", "http://localhost:8181"));
    set_current_context(&mut config, "test").unwrap();

    let removed = remove_context(&mut config, "test");
    assert!(removed.is_some());
    assert!(config.current_context.is_none()); // Should be cleared
}

#[test]
fn test_set_current_context() {
    let mut config = Config::default();
    add_context(&mut config, Context::new("test", "http://localhost:8181"));

    set_current_context(&mut config, "test").unwrap();
    assert_eq!(config.current_context, Some("test".to_string()));
}

#[test]
fn test_set_current_context_not_found() {
    let mut config = Config::default();
    let result = set_current_context(&mut config, "nonexistent");
    assert!(matches!(result, Err(ContextError::ContextNotFound(_))));
}

#[test]
fn test_local_context_allowed() {
    let mut config = Config::default();
    let result = set_current_context(&mut config, "local");
    assert!(result.is_ok());
}

#[test]
fn test_current_url_local() {
    let config = Config::default();
    let url = config.current_url().unwrap();
    assert_eq!(url, "http://0.0.0.0:8181");
}

#[test]
fn test_current_url_remote() {
    let mut config = Config::default();
    add_context(&mut config, Context::new("remote", "http://10.0.0.1:8181"));
    set_current_context(&mut config, "remote").unwrap();

    let url = config.current_url().unwrap();
    assert_eq!(url, "http://10.0.0.1:8181");
}

#[test]
fn test_context_builder() {
    let ctx = Context::new("test", "http://localhost:8181")
        .with_api_key("secret")
        .with_description("Test cluster");

    assert_eq!(ctx.name, "test");
    assert_eq!(ctx.api_key, Some("secret".to_string()));
    assert_eq!(ctx.description, Some("Test cluster".to_string()));
}

#[test]
fn test_current_url_worker() {
    let mut config = Config::default();
    set_current_context(&mut config, "worker").unwrap();
    assert_eq!(config.current_url().unwrap(), "http://localhost:8080");
    assert!(config.is_worker());
    assert!(!config.is_local());
}

#[test]
fn test_current_url_missing_context() {
    let mut config = Config::default();
    config.current_context = Some("gone".to_string());
    assert!(matches!(config.current_url(), Err(ContextError::ContextNotFound(n)) if n == "gone"));
}

#[test]
fn test_get_context_and_current() {
    let mut config = Config::default();
    assert!(matches!(get_current_context(&config), Err(ContextError::NoCurrentContext)));
    add_context(&mut config, Context::new("a", "http://a:1"));
    add_context(&mut config, Context::new("b", "http://b:2"));
    set_current_context(&mut config, "b").unwrap();
    assert_eq!(get_current_context(&config).unwrap(), "b");
    assert_eq!(get_context(&config, "a").unwrap().url, "http://a:1");
    assert!(matches!(get_context(&config, "c"), Err(ContextError::ContextNotFound(_))));
    let names = list_contexts(&config);
    assert_eq!(names, vec!["a", "b"]);
}

#[test]
fn test_add_context_replaces_same_name() {
    let mut config = Config::default();
    add_context(&mut config, Context::new("a", "http://old"));
    add_context(&mut config, Context::new("a", "http://new"));
    assert_eq!(config.contexts.len(), 1);
    assert_eq!(get_context(&config, "a").unwrap().url, "http://new");
}

#[test]
fn test_remove_other_context_keeps_current() {
    let mut config = Config::default();
    add_context(&mut config, Context::new("a", "http://a"));
    add_context(&mut config, Context::new("b", "http://b"));
    set_current_context(&mut config, "a").unwrap();
    assert!(remove_context(&mut config, "b").is_some());
    assert_eq!(config.current_context, Some("a".to_string()));
    assert!(remove_context(&mut config, "b").is_none());
}
