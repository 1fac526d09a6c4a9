use llmnet::cluster::autoscaler::AutoscalerState;
use llmnet::runtime::vllm::choose_hf_token;
use std::time::Duration;

use llmnet::cluster::controller::ControllerConfig;
use llmnet::cluster::health_checker::{
    format_duration, format_secs, summarize_health, truncate, ClusterHealthSummary,
    HealthCheckerConfig, HealthProbeResult, ReplicaHealthState, NANOS_PER_SEC,
};
use llmnet::cluster::heartbeat::{heartbeat_step, HeartbeatConfig, HeartbeatNotice};
use llmnet::cluster::node::{NodeCapacity, NodePhase, ReplicaStatus};
use llmnet::cluster::orchestrator::OrchestratorConfig;
use llmnet::cluster::pipeline::{HealthConfig, RolloutStrategy};
use llmnet::cluster::resources::{LabelSelector, Namespace, OperationStatus, ResourceList};
use llmnet::cluster::HEARTBEAT_INTERVAL_SECS;
use llmnet::strmap::StrMap;

#[test]
fn test_namespace() {
    let ns = Namespace::new("production");
    assert_eq!(ns.metadata.name, "production");
    assert_eq!(ns.kind, "Namespace");
}

#[test]
fn namespace_default_is_default() {
    let ns = Namespace::default();
    assert_eq!(ns.metadata.name, "default");
    assert_eq!(ns.api_version, "llmnet/v1");
}

#[test]
fn test_resource_list() {
    let list: ResourceList<String> = ResourceList::new("StringList", vec!["a".into(), "b".into()]);
    assert_eq!(list.items.len(), 2);
    assert_eq!(list.kind, "StringList");
}

#[test]
fn test_label_selector_matches() {
    let selector = LabelSelector::matching("env", "prod");

    let mut labels = StrMap::new();
    labels.insert("env".to_string(), "prod".to_string());
    labels.insert("app".to_string(), "web".to_string());

    assert!(selector.matches(&labels));
}

#[test]
fn test_label_selector_no_match() {
    let selector = LabelSelector::matching("env", "prod");

    let mut labels = StrMap::new();
    labels.insert("env".to_string(), "dev".to_string());

    assert!(!selector.matches(&labels));
}

#[test]
fn label_selector_edge_cases() {
    let empty = LabelSelector::default();
    assert!(empty.matches(&StrMap::new()));
    let selector = LabelSelector::matching("env", "prod");
    assert!(!selector.matches(&StrMap::new()));
}

#[test]
fn test_operation_status() {
    let success = OperationStatus::success("Pipeline deployed");
    assert!(success.success);

    let failure = OperationStatus::failure("Node not found");
    assert!(!failure.success);
}

#[test]
fn operation_status_details() {
    let s = OperationStatus::success("ok").with_details(serde_json::Value::Bool(true));
    assert!(s.success);
    assert_eq!(s.message, "ok");
    assert_eq!(s.details, Some(serde_json::Value::Bool(true)));
}

#[test]
fn test_capacity_builder() {
    let cap = NodeCapacity::with_gpu(4, 80).with_cpu(128).with_memory_gb(512);

    assert_eq!(cap.gpu, 4);
    assert_eq!(cap.gpu_memory, 80 * 1024 * 1024 * 1024);
    assert_eq!(cap.cpu, 128);
    assert_eq!(cap.memory, 512 * 1024 * 1024 * 1024);
}

#[test]
fn capacity_and_phase_defaults() {
    let cap = NodeCapacity::default();
    assert_eq!(cap.max_pipelines, 10);
    assert_eq!(cap.memory, 0);
    assert_eq!(NodePhase::default(), NodePhase::Unknown);
}

#[test]
fn test_heartbeat_config_builder() {
    let config = HeartbeatConfig::new("http://localhost:8181", "worker-1")
        .with_interval(60)
        .with_capacity(NodeCapacity::default());

    assert_eq!(config.control_plane_url, "http://localhost:8181");
    assert_eq!(config.node_name, "worker-1");
    assert_eq!(config.interval_secs, 60);
}

#[test]
fn test_heartbeat_config_defaults() {
    let config = HeartbeatConfig::new("http://localhost:8181", "worker-1");

    assert_eq!(config.interval_secs, HEARTBEAT_INTERVAL_SECS);
    assert_eq!(config.max_retries, 3);
}

#[test]
fn heartbeat_url_and_steps() {
    let config = HeartbeatConfig::new("http://cp:8181", "w1");
    assert_eq!(config.heartbeat_url(), "http://cp:8181/v1/nodes/w1/heartbeat");
    assert_eq!(heartbeat_step(0, true, 3), (0, HeartbeatNotice::Sent));
    assert_eq!(heartbeat_step(0, false, 3), (1, HeartbeatNotice::Failed(1)));
    assert_eq!(heartbeat_step(2, false, 3), (3, HeartbeatNotice::Unreachable(3)));
    assert_eq!(heartbeat_step(3, true, 3), (0, HeartbeatNotice::Recovered(3)));
}

#[test]
fn test_orchestrator_config_default() {
    let config = OrchestratorConfig::default();
    assert_eq!(config.reconcile_interval_secs, 5);
    assert_eq!(config.worker_request_timeout_secs, 30);
}

#[test]
fn controller_config_default() {
    let config = ControllerConfig::default();
    assert_eq!(config.health_check_interval, 10);
    assert_eq!(config.node_heartbeat_timeout, 90);
    assert_eq!(config.default_max_pipelines_per_node, 10);
}

#[test]
fn test_default_health_config() {
    let health = HealthConfig::default();
    assert_eq!(health.liveness_path, "/health");
    assert_eq!(health.period_seconds, 10);
    assert_eq!(health.failure_threshold, 3);
}

#[test]
fn test_default_rollout_strategy() {
    let strategy = RolloutStrategy::default();
    assert_eq!(strategy.strategy_type, "RollingUpdate");
    let rolling = strategy.rolling_update.unwrap();
    assert_eq!(rolling.max_unavailable, 1);
    assert_eq!(rolling.max_surge, 1);
}

#[test]
fn test_format_duration() {
    assert_eq!(format_duration(Duration::from_secs(30)), "30s");
    assert_eq!(format_duration(Duration::from_secs(90)), "1m30s");
    assert_eq!(format_duration(Duration::from_secs(3661)), "1h1m");
    assert_eq!(format_duration(Duration::from_secs(90061)), "1d1h");
}

#[test]
fn format_secs_boundaries() {
    assert_eq!(format_secs(0), "0s");
    assert_eq!(format_secs(59), "59s");
    assert_eq!(format_secs(60), "1m0s");
    assert_eq!(format_secs(3600), "1h0m");
    assert_eq!(format_secs(86400), "1d0h");
}

#[test]
fn test_replica_health_state_key() {
    let state = ReplicaHealthState::new("dgx", "192.168.1.1", "default", "chatbot", 8080, 0);
    assert_eq!(state.key, "dgx:default:chatbot:8080");
    assert_eq!(state.endpoint, "http://192.168.1.1:8080");
}

#[test]
fn test_cluster_health_summary_status() {
    let summary = ClusterHealthSummary {
        total_replicas: 3,
        healthy_replicas: 3,
        unhealthy_replicas: 0,
        starting_replicas: 0,
        unknown_replicas: 0,
        replicas: vec![],
    };
    assert_eq!(summary.status(), "Healthy");

    let summary = ClusterHealthSummary {
        total_replicas: 3,
        healthy_replicas: 2,
        unhealthy_replicas: 1,
        starting_replicas: 0,
        unknown_replicas: 0,
        replicas: vec![],
    };
    assert_eq!(summary.status(), "Degraded");
}

#[test]
fn test_truncate() {
    assert_eq!(truncate("hello", 10), "hello");
    assert_eq!(truncate("hello world", 8), "hello w…");
}

fn probe(success: bool, at: i64) -> HealthProbeResult {
    HealthProbeResult { success, status_code: None, latency_ms: 12, timestamp: at, error: None }
}

#[test]
fn record_probe_transitions() {
    let config = HealthCheckerConfig::default();
    let s = ReplicaHealthState::new("n", "h", "default", "p", 1, 0);
    let s = s.record_probe(probe(true, 5), &config, 5);
    assert_eq!(s.status, ReplicaStatus::Running);
    assert_eq!(s.ready_since, Some(5));
    let s = s.record_probe(probe(false, 6), &config, 6);
    let s = s.record_probe(probe(false, 7), &config, 7);
    assert_eq!(s.status, ReplicaStatus::Running);
    let s = s.record_probe(probe(false, 8), &config, 8);
    assert_eq!(s.status, ReplicaStatus::Unhealthy);
    assert_eq!(s.ready_since, None);
    assert_eq!(s.consecutive_failures, 3);
}

#[test]
fn uptime_in_seconds() {
    let config = HealthCheckerConfig::default();
    let s = ReplicaHealthState::new("n", "h", "default", "p", 1, 0);
    assert_eq!(s.uptime_str(100), "-");
    let s = s.record_probe(probe(true, 0), &config, 0);
    let now = 90 * NANOS_PER_SEC as i64 + 5;
    assert_eq!(s.uptime(now), Some(90));
    assert_eq!(s.uptime_str(now), "1m30s");
    assert_eq!(s.uptime(-1), Some(0));
}

#[test]
fn summary_counts() {
    let config = HealthCheckerConfig::default();
    let a = ReplicaHealthState::new("n", "h", "default", "a", 1, 0).record_probe(probe(true, 0), &config, 0);
    let b = ReplicaHealthState::new("n", "h", "default", "b", 2, 0);
    let s = summarize_health(vec![a, b], &vec![]);
    assert_eq!((s.total_replicas, s.healthy_replicas, s.starting_replicas, s.unknown_replicas), (2, 1, 1, 0));
    assert_eq!(s.status(), "Starting");
    let s = summarize_health(vec![], &vec![ReplicaStatus::Terminating, ReplicaStatus::Terminating]);
    assert_eq!((s.total_replicas, s.unknown_replicas), (2, 2));
    assert_eq!(s.status(), "Unknown");
    let s = summarize_health(vec![], &vec![]);
    assert_eq!(s.status(), "Empty");
}

#[test]
fn health_table_rows() {
    let config = HealthCheckerConfig::default();
    let a = ReplicaHealthState::new("node-with-a-long-name", "h", "prod", "chat", 1, 0)
        .record_probe(probe(true, 0), &config, 0);
    let s = summarize_health(vec![a], &vec![]);
    let table = s.format_table(3 * NANOS_PER_SEC as i64);
    assert!(table.contains("║  node-with-a… │ prod/chat            │ ✓ Running  │ 3s       │ 3s ago     │ 12ms     │      0 ║\n"));
    assert!(table.contains("Status: Healthy     │  Total:   1"));
    let empty = summarize_health(vec![], &vec![]);
    assert!(empty.format_table(0).contains("No replicas deployed"));
}

#[test]
fn test_autoscaler_state_cooldowns() {
    let now: i64 = 1_700_000_000 * 1_000_000_000;
    let mut state = AutoscalerState::new();

    // Initially, can scale
    assert!(state.can_scale_up(60, now));
    assert!(state.can_scale_down(300, now));

    // After recording scale-up, can't immediately scale up again
    state.record_scale_up(now);
    assert!(!state.can_scale_up(60, now));
    assert!(state.can_scale_down(300, now)); // Can still scale down

    // Once the cooldown has passed, scaling up is allowed again
    assert!(!state.can_scale_up(60, now + 59_999_999_999));
    assert!(state.can_scale_up(60, now + 60_000_000_000));
}

#[test]
fn choose_hf_token_prefers_hf_token() {
    assert_eq!(choose_hf_token(Some("a"), Some("b")), Some("a".to_string()));
    assert_eq!(choose_hf_token(Some(""), Some("b")), Some("b".to_string()));
    assert_eq!(choose_hf_token(None, Some("")), None);
    assert_eq!(choose_hf_token(None, None), None);
}
