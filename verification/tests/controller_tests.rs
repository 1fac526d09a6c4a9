use llmnet::cluster::health_checker::{
    apply_probe, replica_targets, retain_listed, target_keys, HealthCheckerConfig,
    HealthProbeResult,
};
use llmnet::cluster::node::ReplicaStatus;
use llmnet::cluster::api::{lists_container, logs_after_probe, logs_step, LogsQuery, LogsStep};
use llmnet::config::models::{ModelConfig, ModelDefinition};
use llmnet::json::JsonValue;
use llmnet::runtime::docker::DockerConfig;
use llmnet::cluster::orchestrator::{
    accepted_endpoint, assignment_for, pending_pipelines, pipeline_needs_scheduling,
    record_outcome, schedule_pipeline, scheduling_outcome, AssignmentResponse, ScheduleError,
};
use llmnet::cluster::controller::{round_robin_schedule, ClusterController, ControllerError};
use llmnet::cluster::node::{
    Node, NodeCapacity, NodeCondition, NodeConditionType, NodeInfo, NodePhase, NodeStatus,
};
use llmnet::cluster::pipeline::{Pipeline, PipelineCondition, PipelineStatus};
use llmnet::cluster::resources::{LabelSelector, Namespace};
use llmnet::config::architecture::{ArchitectureNode, NodeHooks};
use llmnet::config::composition::Composition;
use llmnet::strmap::StrMap;

const SEC: i64 = 1_000_000_000;

fn info() -> NodeInfo {
    NodeInfo {
        os: "linux".to_string(),
        architecture: "x86_64".to_string(),
        llmnet_version: "0.1.0".to_string(),
        kernel_version: None,
        cuda_version: None,
        gpu_models: vec![],
    }
}

fn arch(name: &str, layer: Option<u32>, adapter: &str) -> ArchitectureNode {
    ArchitectureNode {
        name: name.to_string(),
        layer,
        model: None,
        adapter: adapter.to_string(),
        bind_addr: None,
        bind_port: None,
        output_to: None,
        use_case: None,
        condition: None,
        url: None,
        context: None,
        extra_options: StrMap::new(),
        hooks: NodeHooks::default(),
    }
}

fn create_test_composition() -> Composition {
    Composition {
        models: StrMap::new(),
        architecture: vec![
            arch("router", Some(0), "openai-api"),
            arch("output", None, "output"),
        ],
        secrets: StrMap::new(),
        functions: StrMap::new(),
    }
}

fn create_test_node(name: &str) -> Node {
    let mut node = Node::new(name, "localhost");
    node.status = Some(NodeStatus::new(NodeCapacity::default(), info(), 100 * SEC));
    node
}

// ------------------------------------------------------------------ nodes

#[test]
fn test_create_node() {
    let node = Node::new("node-1", "192.168.1.100");
    assert_eq!(node.metadata.name, "node-1");
    assert_eq!(node.spec.address, "192.168.1.100");
    assert_eq!(node.spec.port, 8080);
    assert!(node.spec.schedulable);
}

#[test]
fn test_node_builder() {
    let node = Node::new("gpu-node", "10.0.0.1")
        .with_port(9090)
        .with_label("gpu", "true")
        .with_label("type", "dgx-spark");
    assert_eq!(node.spec.port, 9090);
    assert_eq!(node.metadata.labels.get("gpu"), Some(&"true".to_string()));
}

#[test]
fn test_cordon() {
    let node = Node::new("node", "localhost").cordon();
    assert!(!node.spec.schedulable);
}

#[test]
fn test_full_address() {
    let node = Node::new("node", "192.168.1.100").with_port(8080);
    assert_eq!(node.full_address(), "192.168.1.100:8080");
}

#[test]
fn node_test_is_ready() {
    let mut node = Node::new("node", "localhost");
    assert!(!node.is_ready());
    node.status = Some(NodeStatus::new(NodeCapacity::default(), info(), 0));
    assert!(node.is_ready());
    assert!(node.can_schedule());
    assert!(node.has_capacity());
    assert_eq!(node.pipeline_count(), 0);
}

#[test]
fn test_heartbeat_staleness() {
    let now = 1_000 * SEC;
    let mut status = NodeStatus::new(NodeCapacity::default(), info(), now);
    assert!(!status.is_stale(60, now));
    status.last_heartbeat = now - 120 * SEC;
    assert!(status.is_stale(60, now));
    // Whole seconds only: 60.9 s is not more than 60.
    status.last_heartbeat = now - 60 * SEC - SEC / 10 * 9;
    assert!(!status.is_stale(60, now));
    status.heartbeat(now);
    assert_eq!(status.last_heartbeat, now);
}

#[test]
fn node_condition_ready() {
    let c = NodeCondition::ready(false, "Down", "no heartbeat", 7);
    assert_eq!(c.condition_type, NodeConditionType::Ready);
    assert_eq!(c.status, "False");
    assert_eq!(c.last_transition_time, 7);
}

// -------------------------------------------------------------- pipelines

#[test]
fn test_create_pipeline() {
    let pipeline = Pipeline::new("my-pipeline", create_test_composition());
    assert_eq!(pipeline.metadata.name, "my-pipeline");
    assert_eq!(pipeline.metadata.namespace, "default");
    assert_eq!(pipeline.spec.replicas, 1);
    assert_eq!(pipeline.api_version, "llmnet/v1");
    assert_eq!(pipeline.kind, "Pipeline");
}

#[test]
fn test_pipeline_builder() {
    let pipeline = Pipeline::new("test", create_test_composition())
        .with_replicas(3)
        .with_namespace("production")
        .with_label("app", "chatbot");
    assert_eq!(pipeline.spec.replicas, 3);
    assert_eq!(pipeline.metadata.namespace, "production");
    assert_eq!(
        pipeline.metadata.labels.get("app"),
        Some(&"chatbot".to_string())
    );
}

#[test]
fn test_qualified_name() {
    let pipeline = Pipeline::new("my-pipeline", create_test_composition()).with_namespace("prod");
    assert_eq!(pipeline.qualified_name(), "prod/my-pipeline");
}

#[test]
fn pipeline_test_is_ready() {
    let mut pipeline = Pipeline::new("test", create_test_composition()).with_replicas(3);
    assert!(!pipeline.is_ready());
    pipeline.status = Some(PipelineStatus {
        replicas: 3,
        ready_replicas: 2,
        available_replicas: 2,
        unavailable_replicas: 1,
        observed_generation: 1,
        conditions: vec![],
        endpoints: vec![],
    });
    assert!(!pipeline.is_ready());
    pipeline.status = Some(PipelineStatus {
        replicas: 3,
        ready_replicas: 3,
        available_replicas: 3,
        unavailable_replicas: 0,
        observed_generation: 1,
        conditions: vec![],
        endpoints: vec![],
    });
    assert!(pipeline.is_ready());
}

#[test]
fn test_pipeline_condition() {
    let condition = PipelineCondition::new("Available", "True", "MinimumReplicasAvailable", "", 5);
    assert_eq!(condition.condition_type, "Available");
    assert_eq!(condition.status, "True");
}

#[test]
fn pipeline_status_add_condition_replaces_same_type() {
    let mut st = PipelineStatus::initial();
    st.add_condition(PipelineCondition::new("Available", "False", "a", "", 1));
    st.add_condition(PipelineCondition::new("Progressing", "True", "b", "", 2));
    st.add_condition(PipelineCondition::new("Available", "True", "c", "", 3));
    let types: Vec<(&str, &str)> = st
        .conditions
        .iter()
        .map(|c| (c.condition_type.as_str(), c.status.as_str()))
        .collect();
    assert_eq!(types, vec![("Progressing", "True"), ("Available", "True")]);
}

// ------------------------------------------------------------- controller

#[test]
fn controller_test_register_node() {
    let mut controller = ClusterController::new();
    controller.register_node(create_test_node("node-1")).unwrap();
    let retrieved = controller.get_node("node-1");
    assert!(retrieved.is_some());
    assert_eq!(retrieved.unwrap().metadata.name, "node-1");
}

#[test]
fn test_register_duplicate_node() {
    let mut controller = ClusterController::new();
    controller.register_node(create_test_node("node-1")).unwrap();
    let result = controller.register_node(create_test_node("node-1"));
    assert!(matches!(result, Err(ControllerError::NodeExists(_))));
}

#[test]
fn test_list_nodes() {
    let mut controller = ClusterController::new();
    controller.register_node(create_test_node("node-1")).unwrap();
    controller.register_node(create_test_node("node-2")).unwrap();
    let nodes = controller.list_nodes();
    assert_eq!(nodes.len(), 2);
}

#[test]
fn controller_test_deploy_pipeline() {
    let mut controller = ClusterController::new();
    let pipeline = Pipeline::new("my-pipeline", create_test_composition());
    let deployed = controller.deploy_pipeline(pipeline).unwrap();
    assert_eq!(deployed.metadata.name, "my-pipeline");
    assert!(deployed.status.is_some());
}

#[test]
fn test_deploy_duplicate_pipeline() {
    let mut controller = ClusterController::new();
    controller
        .deploy_pipeline(Pipeline::new("my-pipeline", create_test_composition()))
        .unwrap();
    let result = controller.deploy_pipeline(Pipeline::new("my-pipeline", create_test_composition()));
    assert!(matches!(result, Err(ControllerError::PipelineExists(_, _))));
}

#[test]
fn test_get_pipeline() {
    let mut controller = ClusterController::new();
    let pipeline = Pipeline::new("test", create_test_composition()).with_namespace("prod");
    controller.deploy_pipeline(pipeline).unwrap();
    assert!(controller.get_pipeline("prod", "test").is_some());
    assert!(controller.list_namespaces().iter().any(|ns| ns.metadata.name == "prod"));
    assert_eq!(controller.list_pipelines("prod").len(), 1);
    assert_eq!(controller.list_pipelines("default").len(), 0);
}

#[test]
fn test_delete_pipeline() {
    let mut controller = ClusterController::new();
    controller
        .deploy_pipeline(Pipeline::new("test", create_test_composition()))
        .unwrap();
    assert!(controller.delete_pipeline("default", "test").is_ok());
    assert!(controller.get_pipeline("default", "test").is_none());
    assert!(matches!(
        controller.delete_pipeline("default", "test"),
        Err(ControllerError::PipelineNotFound(_, _))
    ));
}

#[test]
fn test_scale_pipeline() {
    let mut controller = ClusterController::new();
    controller
        .deploy_pipeline(Pipeline::new("test", create_test_composition()))
        .unwrap();
    let scaled = controller.scale_pipeline("default", "test", 5).unwrap();
    assert_eq!(scaled.spec.replicas, 5);
    assert_eq!(controller.get_pipeline("default", "test").unwrap().spec.replicas, 5);
}

#[test]
fn test_schedule_replicas() {
    let mut controller = ClusterController::new();
    controller.register_node(create_test_node("node-1")).unwrap();
    controller.register_node(create_test_node("node-2")).unwrap();
    let pipeline = Pipeline::new("test", create_test_composition()).with_replicas(4);
    let schedule = controller.schedule_replicas(&pipeline).unwrap();
    let total: u32 = (0..schedule.len()).map(|i| *schedule.val_at(i)).sum();
    assert_eq!(total, 4);
    assert!(schedule.len() <= 2);
    assert_eq!(schedule.get("node-1"), Some(&2));
}

#[test]
fn test_schedule_no_nodes() {
    let controller = ClusterController::new();
    let pipeline = Pipeline::new("test", create_test_composition());
    let result = controller.schedule_replicas(&pipeline);
    assert!(matches!(result, Err(ControllerError::NoAvailableNodes)));
}

#[test]
fn schedule_respects_selector_and_capacity() {
    let mut controller = ClusterController::new();
    controller
        .register_node(create_test_node("cpu").with_label("gpu", "false"))
        .unwrap();
    controller
        .register_node(create_test_node("gpu").with_label("gpu", "true"))
        .unwrap();
    let mut pipeline = Pipeline::new("p", create_test_composition()).with_replicas(3);
    pipeline
        .spec
        .node_selector
        .insert("gpu".to_string(), "true".to_string());
    let schedule = controller.schedule_replicas(&pipeline).unwrap();
    assert_eq!(schedule.len(), 1);
    assert_eq!(schedule.get("gpu"), Some(&3));
    let sel = LabelSelector::matching("gpu", "false");
    assert_eq!(controller.list_nodes_by_selector(&sel).len(), 1);
}

#[test]
fn round_robin_counts() {
    let names = vec!["a".to_string(), "b".to_string(), "c".to_string()];
    let m = round_robin_schedule(&names, 2);
    assert_eq!(m.len(), 2);
    assert_eq!(m.get("c"), None);
    let m = round_robin_schedule(&names, 7);
    assert_eq!(
        (m.get("a"), m.get("b"), m.get("c")),
        (Some(&3), Some(&2), Some(&2))
    );
}

#[test]
fn test_cordon_uncordon() {
    let mut controller = ClusterController::new();
    controller.register_node(create_test_node("node-1")).unwrap();
    controller.cordon_node("node-1").unwrap();
    assert!(!controller.get_node("node-1").unwrap().spec.schedulable);
    assert_eq!(controller.get_schedulable_nodes().len(), 0);
    controller.uncordon_node("node-1").unwrap();
    assert!(controller.get_node("node-1").unwrap().spec.schedulable);
    assert!(matches!(
        controller.cordon_node("nope"),
        Err(ControllerError::NodeNotFound(_))
    ));
}

#[test]
fn test_cluster_stats() {
    let mut controller = ClusterController::new();
    controller.register_node(create_test_node("node-1")).unwrap();
    controller
        .deploy_pipeline(Pipeline::new("p1", create_test_composition()))
        .unwrap();
    controller
        .deploy_pipeline(Pipeline::new("p2", create_test_composition()))
        .unwrap();
    let stats = controller.cluster_stats();
    assert_eq!(stats.total_nodes, 1);
    assert_eq!(stats.ready_nodes, 1);
    assert_eq!(stats.total_pipelines, 2);
    assert_eq!(stats.ready_pipelines, 0);
    assert_eq!(stats.namespaces, 1);
}

#[test]
fn test_default_namespace_created() {
    let mut controller = ClusterController::new();
    let namespaces = controller.list_namespaces();
    assert!(namespaces.iter().any(|ns| ns.metadata.name == "default"));
    controller.create_namespace(Namespace::new("default")).unwrap();
    assert_eq!(controller.list_namespaces().len(), 1);
}

#[test]
fn controller_health_and_pipeline_tracking() {
    let mut controller = ClusterController::new();
    controller.register_node(create_test_node("n")).unwrap();
    controller.register_node(Node::new("bare", "h")).unwrap();
    controller
        .add_pipeline_to_node("n", "default", "p", 9000, info(), 0)
        .unwrap();
    controller
        .add_pipeline_to_node("n", "default", "p", 9000, info(), 0)
        .unwrap();
    assert_eq!(controller.get_node("n").unwrap().pipeline_count(), 1);
    controller
        .add_pipeline_to_node("bare", "default", "p", 9001, info(), 5)
        .unwrap();
    let bare = controller.get_node("bare").unwrap();
    assert_eq!(bare.status.as_ref().unwrap().last_heartbeat, 5);
    assert_eq!(bare.pipeline_count(), 1);
    controller
        .remove_pipeline_from_node("n", "default", "p")
        .unwrap();
    assert_eq!(controller.get_node("n").unwrap().pipeline_count(), 0);

    // Heartbeat at 100 s; the default timeout is 90 s.
    controller.check_node_health(150 * SEC);
    assert_eq!(
        controller.get_node("n").unwrap().status.as_ref().unwrap().phase,
        NodePhase::Ready
    );
    controller.check_node_health(200 * SEC);
    assert_eq!(
        controller.get_node("n").unwrap().status.as_ref().unwrap().phase,
        NodePhase::Unknown
    );
    assert!(controller.unregister_node("n").is_ok());
    assert!(controller.get_node("n").is_none());
}

// ------------------------------------------------------------ orchestration


#[test]
fn pending_pipelines_lists_unscheduled() {
    let mut controller = ClusterController::new();
    controller
        .deploy_pipeline(Pipeline::new("a", create_test_composition()))
        .unwrap();
    controller
        .deploy_pipeline(Pipeline::new("b", create_test_composition()))
        .unwrap();
    let mut running = PipelineStatus::initial();
    running.replicas = 1;
    controller.update_pipeline_status("default", "b", running).unwrap();
    assert_eq!(
        pending_pipelines(&controller),
        vec![("default".to_string(), "a".to_string())]
    );
    assert!(pipeline_needs_scheduling(&Pipeline::new("x", create_test_composition())));
}

#[test]
fn schedule_pipeline_dispatches_to_workers() {
    let mut controller = ClusterController::new();
    controller.register_node(create_test_node("node-1")).unwrap();
    controller.register_node(create_test_node("node-2")).unwrap();
    let pipeline = Pipeline::new("test", create_test_composition()).with_replicas(3);
    let plan = schedule_pipeline(&controller, &pipeline).unwrap();
    assert_eq!(plan.len(), 2);
    let total: u32 = plan.iter().map(|d| d.replicas).sum();
    assert_eq!(total, 3);
    for d in &plan {
        assert!(d.url.starts_with("http://localhost:"));
        assert!(d.url.ends_with("/v1/assignments"));
    }
    let a = assignment_for(&pipeline, plan[0].replicas);
    assert_eq!(a.name, "test");
    assert_eq!(a.namespace, "default");
    assert_eq!(a.port, 8080);
}

#[test]
fn schedule_pipeline_without_nodes_fails() {
    let controller = ClusterController::new();
    let pipeline = Pipeline::new("test", create_test_composition());
    let err = schedule_pipeline(&controller, &pipeline).unwrap_err();
    assert!(matches!(
        err,
        ScheduleError::Controller(ControllerError::NoAvailableNodes)
    ));
    assert_eq!(err.message(), "No available nodes for scheduling");
}

#[test]
fn worker_answers_and_outcome() {
    let ok = AssignmentResponse {
        success: true,
        endpoint: Some("http://w:8080".to_string()),
        error: None,
    };
    let rejected = AssignmentResponse {
        success: false,
        endpoint: Some("http://w:8080".to_string()),
        error: Some("busy".to_string()),
    };
    assert_eq!(accepted_endpoint(&ok), Some("http://w:8080".to_string()));
    assert_eq!(accepted_endpoint(&rejected), None);
    let none = scheduling_outcome(vec![]).unwrap_err();
    assert_eq!(none.message(), "No workers successfully accepted the assignment");
    assert_eq!(
        scheduling_outcome(vec!["e".to_string()]).unwrap(),
        vec!["e".to_string()]
    );
}

#[test]
fn record_outcome_updates_status() {
    let mut controller = ClusterController::new();
    controller
        .deploy_pipeline(Pipeline::new("p", create_test_composition()).with_replicas(2))
        .unwrap();
    let pipeline = controller.get_pipeline("default", "p").unwrap();
    let pipeline = Pipeline::with_id(
        "p",
        create_test_composition(),
        pipeline.metadata.uid,
        pipeline.metadata.creation_timestamp,
    )
    .with_replicas(2);
    let outcome = Ok(vec!["http://w:9000".to_string()]);
    record_outcome(&mut controller, &pipeline, &outcome, 7 * SEC).unwrap();
    let status = controller
        .get_pipeline("default", "p")
        .unwrap()
        .status
        .clone()
        .unwrap();
    assert_eq!(status.replicas, 2);
    assert_eq!(status.endpoints, vec!["http://w:9000".to_string()]);
    let last = status.conditions.last().unwrap();
    assert_eq!(last.condition_type, "Scheduled");
    assert_eq!(last.status, "True");
    assert_eq!(last.reason, "ReplicasScheduled");
    assert_eq!(last.message, "2 replica(s) scheduled to workers");
    assert_eq!(last.last_update_time, 7 * SEC);

    let failed: Result<Vec<String>, ScheduleError> = Err(ScheduleError::NoNodes);
    let missing = Pipeline::new("absent", create_test_composition());
    assert!(record_outcome(&mut controller, &missing, &failed, 8 * SEC).is_err());
    record_outcome(&mut controller, &pipeline, &failed, 8 * SEC).unwrap();
    let status = controller.get_pipeline("default", "p").unwrap().status.clone().unwrap();
    let last = status.conditions.last().unwrap();
    assert_eq!(last.status, "False");
    assert_eq!(last.reason, "SchedulingFailed");
    assert_eq!(last.message, "No nodes available for scheduling");
}

// ---------------------------------------------------------------------- logs

fn docker_composition(container: &str) -> Composition {
    let mut c = create_test_composition();
    c.models.insert(
        "plain".to_string(),
        ModelDefinition::Unified(ModelConfig::external("http://x")),
    );
    c.models.insert(
        "boxed".to_string(),
        ModelDefinition::Unified(ModelConfig::docker(
            "org/model",
            DockerConfig {
                image: Some("img".to_string()),
                name: Some(container.to_string()),
                ..Default::default()
            },
        )),
    );
    c
}

fn query(container: Option<&str>) -> LogsQuery {
    LogsQuery {
        follow: true,
        tail: 50,
        container: container.map(|c| c.to_string()),
    }
}

#[test]
fn logs_step_missing_pipeline_and_container() {
    let mut controller = ClusterController::new();
    match logs_step(&controller, "default", "nope", &query(None)) {
        LogsStep::Reply { status, body } => {
            assert_eq!(status, 404);
            assert_eq!(body, "Pipeline 'default/nope' not found");
        }
        other => panic!("unexpected step: {:?}", other),
    }
    controller
        .deploy_pipeline(Pipeline::new("p", create_test_composition()))
        .unwrap();
    match logs_step(&controller, "default", "p", &query(None)) {
        LogsStep::Reply { status, body } => {
            assert_eq!(status, 400);
            assert_eq!(
                body,
                "No docker container name found in composition. Specify ?container=NAME"
            );
        }
        other => panic!("unexpected step: {:?}", other),
    }
}

#[test]
fn logs_step_streams_from_tracking_node() {
    let mut controller = ClusterController::new();
    controller.register_node(create_test_node("node-1")).unwrap();
    controller.register_node(create_test_node("node-2")).unwrap();
    controller
        .deploy_pipeline(Pipeline::new("p", docker_composition("llm-1")))
        .unwrap();
    controller
        .add_pipeline_to_node("node-2", "default", "p", 9000, info(), 200 * SEC)
        .unwrap();
    match logs_step(&controller, "default", "p", &query(None)) {
        LogsStep::Stream { url } => assert_eq!(
            url,
            "http://localhost:8080/v1/containers/llm-1/logs?follow=true&tail=50"
        ),
        other => panic!("unexpected step: {:?}", other),
    }
}

#[test]
fn logs_step_probes_when_untracked() {
    let mut controller = ClusterController::new();
    controller.register_node(create_test_node("node-1")).unwrap();
    controller
        .deploy_pipeline(Pipeline::new("p", create_test_composition()))
        .unwrap();
    match logs_step(&controller, "default", "p", &query(Some("c9"))) {
        LogsStep::Probe { container, workers } => {
            assert_eq!(container, "c9");
            assert_eq!(
                workers,
                vec![(
                    "http://localhost:8080".to_string(),
                    "http://localhost:8080/v1/containers".to_string()
                )]
            );
        }
        other => panic!("unexpected step: {:?}", other),
    }
    let body = JsonValue::Object(vec![(
        "containers".to_string(),
        JsonValue::Array(vec![
            JsonValue::String("a".to_string()),
            JsonValue::String("c9".to_string()),
        ]),
    )]);
    assert!(lists_container(&body, "c9"));
    assert!(!lists_container(&body, "c"));
    assert!(!lists_container(&JsonValue::Null, "c9"));
    match logs_after_probe("c9", Some("http://w:8080"), &query(None)) {
        LogsStep::Stream { url } => {
            assert_eq!(url, "http://w:8080/v1/containers/c9/logs?follow=true&tail=50")
        }
        other => panic!("unexpected step: {:?}", other),
    }
    match logs_after_probe("c9", None, &query(None)) {
        LogsStep::Reply { status, body } => {
            assert_eq!(status, 503);
            assert_eq!(body, "Pipeline not scheduled to any worker or container not found");
        }
        other => panic!("unexpected step: {:?}", other),
    }
}

// -------------------------------------------------------------- replica health

fn probe_result(success: bool) -> HealthProbeResult {
    HealthProbeResult { success, status_code: None, latency_ms: 3, timestamp: 0, error: None }
}

#[test]
fn health_tracking_follows_listed_replicas() {
    let mut controller = ClusterController::new();
    controller.register_node(create_test_node("node-1")).unwrap();
    controller
        .deploy_pipeline(Pipeline::new("p", create_test_composition()))
        .unwrap();
    controller
        .add_pipeline_to_node("node-1", "default", "p", 9000, info(), 200 * SEC)
        .unwrap();
    let targets = replica_targets(&controller);
    assert_eq!(targets.len(), 1);
    assert_eq!(targets[0].node_address, "localhost");
    assert_eq!(targets[0].port, 9000);
    let keys = target_keys(&targets);
    assert_eq!(keys, vec!["node-1:default:p:9000".to_string()]);

    let config = HealthCheckerConfig::default();
    let mut states = StrMap::new();
    apply_probe(&mut states, &targets[0], probe_result(true), &config, 5 * SEC);
    let s = states.get("node-1:default:p:9000").unwrap();
    assert_eq!(s.status, ReplicaStatus::Running);
    assert_eq!(s.consecutive_successes, 1);
    assert_eq!(s.first_seen, 5 * SEC);
    for _ in 0..3 {
        apply_probe(&mut states, &targets[0], probe_result(false), &config, 6 * SEC);
    }
    let s = states.get("node-1:default:p:9000").unwrap();
    assert_eq!(s.status, ReplicaStatus::Unhealthy);
    assert_eq!(s.consecutive_failures, 3);
    assert_eq!(s.first_seen, 5 * SEC);

    let stale = llmnet::cluster::health_checker::ReplicaTarget {
        node_name: "gone".to_string(),
        node_address: "x".to_string(),
        namespace: "default".to_string(),
        pipeline_name: "old".to_string(),
        port: 1,
    };
    apply_probe(&mut states, &stale, probe_result(true), &config, 7 * SEC);
    assert_eq!(states.len(), 2);
    retain_listed(&mut states, &keys);
    assert_eq!(states.len(), 1);
    assert!(states.get("gone:default:old:1").is_none());
    assert!(states.get("node-1:default:p:9000").is_some());
}

#[test]
fn round_robin_is_balanced() {
    let names: Vec<String> = vec!["a".to_string(), "b".to_string(), "c".to_string()];
    let m = round_robin_schedule(&names, 7);
    assert_eq!(m.get("a"), Some(&3));
    assert_eq!(m.get("b"), Some(&2));
    assert_eq!(m.get("c"), Some(&2));
    let m = round_robin_schedule(&names, 2);
    assert_eq!(m.get("a"), Some(&1));
    assert_eq!(m.get("b"), Some(&1));
    assert!(m.get("c").is_none());
}

#[test]
fn pipeline_detail_shows_uuid_hyphenated() {
    let p = Pipeline::with_id(
        "chat",
        create_test_composition(),
        0x0123456789abcdef0fedcba987654321,
        None,
    );
    let out = llmnet::cli::display::format_pipeline_detail(&p);
    assert!(out.contains("UID:        01234567-89ab-cdef-0fed-cba987654321\n"));
}
