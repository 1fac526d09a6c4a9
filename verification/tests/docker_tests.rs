use llmnet::runtime::ports::{next_available_port, port_of_endpoint};
use llmnet::runtime::docker::{
    default_detached, default_network, generate_build_args, generate_container_name,
    generate_pull_args, generate_rm_args, generate_stop_args, generate_login_args, map_param_name,
    param_to_env_var, DockerConfig, DockerError, RegistryConfig,
};
use llmnet::runtime::docker::{expand_env_step, generate_run_args, EnvStep};
use llmnet::json::JsonValue;
use llmnet::strmap::StrMap;

/// Expands `${VAR}` references the way the runner does, with `lookup` standing in
/// for the environment.
fn expand_with(input: &str, lookup: &dyn Fn(&str) -> String) -> String {
    let mut current = input.to_string();
    loop {
        match expand_env_step(&current) {
            EnvStep::Done => return current,
            EnvStep::Lookup { before, name, after } => {
                current = format!("{}{}{}", before, lookup(&name), after);
            }
        }
    }
}

#[test]
fn test_validate_image_config() {
    let config = DockerConfig {
        image: Some("dgx-vllm:latest".to_string()),
        ..Default::default()
    };
    assert!(config.validate().is_ok());
}

#[test]
fn test_validate_dockerfile_config() {
    let config = DockerConfig {
        dockerfile: Some("./Dockerfile".to_string()),
        ..Default::default()
    };
    assert!(config.validate().is_ok());
}

#[test]
fn test_validate_neither() {
    let config = DockerConfig::default();
    assert!(config.validate().is_err());
}

#[test]
fn test_validate_both() {
    let config = DockerConfig {
        image: Some("image".to_string()),
        dockerfile: Some("./Dockerfile".to_string()),
        ..Default::default()
    };
    assert!(config.validate().is_err());
}

#[test]
fn test_param_to_env_var() {
    assert_eq!(param_to_env_var("tensor_parallel_size"), "TENSOR_PARALLEL_SIZE");
    assert_eq!(param_to_env_var("max_model_len"), "MAX_MODEL_LEN");
}

#[test]
fn test_map_param_name() {
    assert_eq!(map_param_name("gpu_memory_utilization"), "GPU_MEMORY_UTIL");
    assert_eq!(map_param_name("tensor_parallel_size"), "tensor_parallel_size");
}

#[test]
fn test_generate_build_args() {
    let args = generate_build_args("./Dockerfile", ".", "my-image:latest");
    assert_eq!(args, vec!["build", "-f", "./Dockerfile", "-t", "my-image:latest", "."]);
}

#[test]
fn test_generate_container_name() {
    assert_eq!(
        generate_container_name("llmnet", "meta-llama/Llama-2-7b"),
        "llmnet-meta-llama-llama-2-7b"
    );
}

#[test]
fn test_effective_image() {
    let config = DockerConfig {
        image: Some("my-image:v1".to_string()),
        ..Default::default()
    };
    assert_eq!(config.effective_image("test"), "my-image:v1");

    let config2 = DockerConfig {
        dockerfile: Some("./Dockerfile".to_string()),
        ..Default::default()
    };
    assert_eq!(config2.effective_image("my-model"), "llmnet-my-model");
}

#[test]
fn test_generate_stop_args() {
    let args = generate_stop_args("my-container");
    assert_eq!(args, vec!["stop", "my-container"]);
}

#[test]
fn test_generate_rm_args() {
    let args = generate_rm_args("my-container");
    assert_eq!(args, vec!["rm", "-f", "my-container"]);
}

#[test]
fn test_validate_error_messages() {
    match DockerConfig::default().validate() {
        Err(DockerError::ConfigError(m)) => {
            assert_eq!(m, "Either 'image' or 'dockerfile' must be specified")
        }
        _ => panic!("expected a configuration error"),
    }
    let both = DockerConfig {
        image: Some("i".to_string()),
        dockerfile: Some("d".to_string()),
        ..Default::default()
    };
    match both.validate() {
        Err(DockerError::ConfigError(m)) => {
            assert_eq!(m, "'image' and 'dockerfile' are mutually exclusive")
        }
        _ => panic!("expected a configuration error"),
    }
}

#[test]
fn test_effective_image_sanitizes_model_name() {
    let config = DockerConfig {
        dockerfile: Some("./Dockerfile".to_string()),
        ..Default::default()
    };
    assert_eq!(config.effective_image("Org/My-Model"), "llmnet-org-my-model");
    assert!(config.needs_build());
}

#[test]
fn test_generate_pull_args_with_registry() {
    let reg = Some(RegistryConfig {
        url: Some("ghcr.io".to_string()),
        token: None,
        username: None,
    });
    assert_eq!(generate_pull_args("img:1", &reg), vec!["pull", "ghcr.io/img:1"]);
    assert_eq!(generate_pull_args("img:1", &None), vec!["pull", "img:1"]);
    let no_url = Some(RegistryConfig::default());
    assert_eq!(generate_pull_args("img:1", &no_url), vec!["pull", "img:1"]);
}

#[test]
fn test_login_args() {
    let reg = RegistryConfig {
        url: Some("ghcr.io".to_string()),
        token: Some("tok".to_string()),
        username: Some("me".to_string()),
    };
    let (args, password) = generate_login_args(&reg).unwrap();
    assert_eq!(args, vec!["login", "-u", "me", "--password-stdin", "ghcr.io"]);
    assert_eq!(password, "tok");
    assert!(generate_login_args(&RegistryConfig::default()).is_none());
}

#[test]
fn test_container_name_colons() {
    assert_eq!(generate_container_name("p", "a:b/C"), "p-a-b-c");
}

#[test]
fn test_docker_defaults() {
    assert_eq!(default_network(), "host");
    assert!(default_detached());
}

#[test]
fn test_generate_run_args() {
    let config = DockerConfig {
        image: Some("dgx-vllm:cutlass-nvfp4".to_string()),
        network: "host".to_string(),
        gpus: Some("all".to_string()),
        ipc: Some("host".to_string()),
        volumes: vec!["${HOME}/.cache/huggingface:/root/.cache/huggingface".to_string()],
        extra_args: Some("--swap-space 32".to_string()),
        detached: true,
        ..Default::default()
    };

    let mut params = StrMap::new();
    params.insert("tensor_parallel_size".to_string(), JsonValue::Number("1".to_string()));
    params.insert("max_model_len".to_string(), JsonValue::Number("131072".to_string()));

    let volumes: Vec<String> = config
        .volumes
        .iter()
        .map(|v| expand_with(v, &|_| "/home/user".to_string()))
        .collect();
    let args = generate_run_args(
        &config,
        "RESMP-DEV/Qwen3-Next-80B",
        8888,
        &params,
        "test-container",
        &vec![],
        &volumes,
    );

    assert!(args.contains(&"run".to_string()));
    assert!(args.contains(&"-d".to_string()));
    assert!(args.contains(&"--network".to_string()));
    assert!(args.contains(&"host".to_string()));
    assert!(args.contains(&"--gpus".to_string()));
    assert!(args.contains(&"all".to_string()));
    assert!(args.contains(&"--ipc".to_string()));
    assert!(args.contains(&"-e".to_string()));
    assert!(args.iter().any(|a| a.contains("MODEL=RESMP-DEV/Qwen3-Next-80B")));
    assert!(args.iter().any(|a| a.contains("PORT=8888")));
    assert!(args.iter().any(|a| a.contains("TENSOR_PARALLEL_SIZE=1")));
    assert!(args.iter().any(|a| a.contains("MAX_MODEL_LEN=131072")));
    assert!(args.iter().any(|a| a.contains("VLLM_EXTRA_ARGS=--swap-space 32")));
}

#[test]
fn generate_run_args_exact_order() {
    let mut env = StrMap::new();
    env.insert("HF_TOKEN".to_string(), "${TOKEN}".to_string());
    let config = DockerConfig {
        name: None,
        network: "bridge".to_string(),
        shm_size: Some("16g".to_string()),
        auto_remove: true,
        detached: false,
        restart: Some("always".to_string()),
        env,
        volumes: vec!["/data:/data".to_string()],
        ..Default::default()
    };
    let mut params = StrMap::new();
    params.insert("gpu_memory_utilization".to_string(), JsonValue::Number("0.9".to_string()));
    params.insert("enforce_eager".to_string(), JsonValue::Bool(true));
    params.insert("ignored".to_string(), JsonValue::Null);
    let args = generate_run_args(
        &config,
        "org/model",
        9000,
        &params,
        "Org/Model",
        &vec!["secret".to_string()],
        &vec!["/data:/data".to_string()],
    );
    assert_eq!(
        args,
        vec![
            "run", "--name", "Org/Model", "--network", "bridge", "--shm-size", "16g", "--rm",
            "--restart", "always", "-e", "MODEL=org/model", "-e", "PORT=9000", "-e",
            "GPU_MEMORY_UTIL=0.9", "-e", "ENFORCE_EAGER=true", "-e", "HF_TOKEN=secret", "-v",
            "/data:/data", "llmnet-org-model", "serve",
        ]
    );
}

#[test]
fn test_expand_env_step() {
    match expand_env_step("prefix-${TEST_VAR}-suffix") {
        EnvStep::Lookup { before, name, after } => {
            assert_eq!(before, "prefix-");
            assert_eq!(name, "TEST_VAR");
            assert_eq!(after, "-suffix");
        }
        EnvStep::Done => panic!("expected a reference"),
    }
    assert!(matches!(expand_env_step("no references"), EnvStep::Done));
    assert!(matches!(expand_env_step("open ${ only"), EnvStep::Done));
    assert!(matches!(expand_env_step("$HOME stays"), EnvStep::Done));
    let lookup = |name: &str| if name == "TEST_VAR" { "test_value".to_string() } else { String::new() };
    assert_eq!(expand_with("prefix-${TEST_VAR}-suffix", &lookup), "prefix-test_value-suffix");
    assert_eq!(expand_with("${A}${TEST_VAR}", &lookup), "test_value");
}

#[test]
fn test_next_available_port() {
    assert_eq!(next_available_port(&vec![], 8080), 8080);
    let running = vec![
        "http://127.0.0.1:8080/v1".to_string(),
        "http://127.0.0.1:8081".to_string(),
        "http://127.0.0.1:8083/v1".to_string(),
    ];
    assert_eq!(next_available_port(&running, 8080), 8082);
    assert_eq!(next_available_port(&running, 8083), 8084);
    assert_eq!(next_available_port(&running, 9000), 9000);
    assert_eq!(port_of_endpoint("http://h:1234/v1/x"), Some(1234));
    assert_eq!(port_of_endpoint("no-port"), None);
}
