use claw_pen::api::{
    api_key_infos, health_status_from, parse_meminfo, parse_provider, parse_runtime_tag,
    parse_tail_param, plan_start, slugify, system_stats_summary, AgentFilter, StartPlan,
    check_recreated_id, inject_api_key, matching_agents,
};
use claw_pen::config::{Config, ContainerRuntimeType, ModelServers, NetworkBackend};
use claw_pen::desktop::{AppConfig, DateTime};
use claw_pen::network::{create_backend, create_headscale_backend, NetworkClient};
use claw_pen::shared_memory::{parse_task_status, SharedMemoryConfig, TaskStatus};
use claw_pen::types::{
    AgentConfig, AgentContainer, AgentStatus, BackendKind, LlmProvider, PartialAgentConfig,
    ResourcePreset,
};

#[test]
fn provider_names_parse_case_insensitively() {
    assert_eq!(parse_provider("Anthropic"), LlmProvider::Anthropic);
    assert_eq!(parse_provider("OLLAMA"), LlmProvider::Ollama);
    assert_eq!(parse_provider("unheard-of"), LlmProvider::OpenAI);
}

#[test]
fn provider_surface_helpers() {
    assert!(LlmProvider::Ollama.is_local());
    assert!(!LlmProvider::Anthropic.is_local());
    assert_eq!(LlmProvider::OpenAI.display_name(), "OpenAI");
    assert_eq!(LlmProvider::Ollama.display_name(), "Ollama (Local)");
}

#[test]
fn presets_override_resources() {
    assert_eq!(ResourcePreset::Nano.resources(), (512, 500));
    assert_eq!(ResourcePreset::Xlarge.resources(), (16384, 16000));
    let mut config = AgentConfig::default();
    let partial = PartialAgentConfig {
        llm_provider: None,
        llm_model: None,
        memory_mb: Some(9999),
        cpu_millicores: Some(9999),
        preset: Some(ResourcePreset::Small),
        env_vars: None,
        secrets: None,
        restart_policy: None,
        health_check: None,
        volumes: None,
    };
    config.apply(&partial);
    assert_eq!(config.memory_mb, 2048);
    assert_eq!(config.cpu_millicores, 2000);
}

#[test]
fn env_apply_overwrites_and_appends() {
    let mut config = AgentConfig::default();
    config.env_vars.push(("A".to_string(), "1".to_string()));
    let partial = PartialAgentConfig {
        llm_provider: None,
        llm_model: None,
        memory_mb: None,
        cpu_millicores: None,
        preset: None,
        env_vars: Some(vec![
            ("A".to_string(), "2".to_string()),
            ("B".to_string(), "3".to_string()),
        ]),
        secrets: None,
        restart_policy: None,
        health_check: None,
        volumes: None,
    };
    config.apply(&partial);
    assert_eq!(config.env_vars.len(), 2);
    assert_eq!(config.env_vars[0], ("A".to_string(), "2".to_string()));
    assert_eq!(config.env_vars[1], ("B".to_string(), "3".to_string()));
}

#[test]
fn api_key_goes_under_the_provider_variable() {
    let mut config = AgentConfig::default();
    config.llm_provider = LlmProvider::Gemini;
    inject_api_key(&mut config, "credential-value".to_string());
    assert_eq!(
        config.env_vars[0],
        ("GOOGLE_API_KEY".to_string(), "credential-value".to_string())
    );
}

#[test]
fn runtime_tags_parse() {
    assert_eq!(parse_runtime_tag("docker"), Some(BackendKind::EngineSocket));
    assert_eq!(parse_runtime_tag("EXO"), Some(BackendKind::ExternalCli));
    assert_eq!(parse_runtime_tag("podman"), None);
}

#[test]
fn start_plan_recovers_missing_containers() {
    assert_eq!(plan_start(false), StartPlan::CreateThenStart);
    assert_eq!(plan_start(true), StartPlan::StartOnly);
    assert!(check_recreated_id("c-1", "c-1").is_ok());
    assert!(check_recreated_id("c-1", "c-2").is_err());
}

#[test]
fn health_status_records_the_probe() {
    let ok = health_status_from(true, "17");
    assert!(ok.healthy);
    assert_eq!(ok.last_check, "17");
    assert_eq!(ok.message.as_deref(), Some("OK"));
    let bad = health_status_from(false, "18");
    assert_eq!(bad.message.as_deref(), Some("Health check failed"));
}

#[test]
fn tail_parameter_defaults_to_one_hundred() {
    assert_eq!(parse_tail_param(Some("50")), 50);
    assert_eq!(parse_tail_param(Some("junk")), 100);
    assert_eq!(parse_tail_param(None), 100);
}

#[test]
fn meminfo_fields_are_parsed() {
    let content = b"MemTotal:       16384 kB\nMemFree:        100 kB\nMemAvailable:    8192 kB\n";
    let (total, available) = parse_meminfo(content);
    assert_eq!(total, 16384);
    assert_eq!(available, 8192);
}

#[test]
fn system_stats_summarise_the_roster() {
    let roster = vec![
        running_record("a"),
        running_record("b"),
        stopped_record("c"),
    ];
    let stats = system_stats_summary(16384, 8192, 4, &roster, BackendKind::EngineSocket);
    assert_eq!(stats.total_memory_mb, 16);
    assert_eq!(stats.available_memory_mb, 8);
    assert_eq!(stats.used_memory_mb, 8);
    assert_eq!(stats.agent_count, 3);
    assert_eq!(stats.running_agents, 2);
    assert_eq!(stats.cpu_usage_percent, 50);
    assert_eq!(stats.agent_memory_mb, 2048);
}

fn running_record(id: &str) -> AgentContainer {
    let mut r = stopped_record(id);
    r.status = AgentStatus::Running;
    r
}

fn stopped_record(id: &str) -> AgentContainer {
    AgentContainer {
        id: id.to_string(),
        name: id.to_string(),
        status: AgentStatus::Stopped,
        config: AgentConfig::default(),
        tailscale_ip: None,
        resource_usage: None,
        project: None,
        tags: Vec::new(),
        restart_policy: claw_pen::types::RestartPolicy::Never,
        health_status: None,
        runtime: None,
    }
}

#[test]
fn listing_filters_apply_together() {
    let mut a = running_record("a");
    a.project = Some("p1".to_string());
    a.tags.push("t1".to_string());
    let mut b = stopped_record("b");
    b.project = Some("p1".to_string());
    let filter = AgentFilter {
        project: Some("p1".to_string()),
        status: Some(AgentStatus::Running),
        tag: None,
        runtime: None,
    };
    let roster = vec![a, b];
    let hits = matching_agents(&roster, &filter);
    assert_eq!(hits, vec![0]);
}

#[test]
fn batch_operations_pick_the_right_records() {
    let mut a = running_record("a");
    a.project = Some("p1".to_string());
    let b = stopped_record("b");
    let mut c = stopped_record("c");
    c.project = Some("p1".to_string());
    let roster = vec![a, b, c];
    assert_eq!(claw_pen::api::agents_to_start(&roster, None), vec![1, 2]);
    assert_eq!(claw_pen::api::agents_to_start(&roster, Some("p1")), vec![2]);
    assert_eq!(claw_pen::api::agents_to_stop(&roster, None), vec![0]);
    assert_eq!(claw_pen::api::agents_to_stop(&roster, Some("p2")), Vec::<usize>::new());
}

#[test]
fn projects_group_the_roster() {
    let mut a = running_record("a");
    a.project = Some("Data Team".to_string());
    let mut b = stopped_record("b");
    b.project = Some("Data Team".to_string());
    let c = stopped_record("c");
    let roster = vec![a, b, c];
    let projects = claw_pen::api::projects_from_roster(&roster, "7");
    assert_eq!(projects.len(), 1);
    assert_eq!(projects[0].name, "Data Team");
    assert_eq!(projects[0].id, "data-team");
    assert_eq!(projects[0].agents, vec!["a".to_string(), "b".to_string()]);
}

#[test]
fn credential_listing_marks_present_providers() {
    let stored = vec!["anthropic".to_string(), "google".to_string()];
    let infos = api_key_infos(&stored);
    assert_eq!(infos.len(), 8);
    for info in &infos {
        let expected = info.provider == "anthropic" || info.provider == "google";
        assert_eq!(info.has_key, expected);
    }
}

#[test]
fn slugs_lower_and_dash() {
    assert_eq!(slugify("My Project"), "my-project");
    assert_eq!(slugify("plain"), "plain");
}

#[test]
fn network_identities_are_deterministic() {
    let client = create_backend("tailscale", None);
    let id = client.assign_identity("0123456789abcdef").unwrap();
    assert_eq!(id, "ts-01234567");
    let client = create_backend("something-else", None);
    let id = client.assign_identity("0123456789abcdef").unwrap();
    assert_eq!(id, "local");
    assert!(client.remove_identity("0123456789abcdef").is_ok());
    let hs = create_headscale_backend("https://mesh.example".to_string(), "k".to_string(), None);
    assert_eq!(hs.namespace, "claw-pen");
    let hs_client = NetworkClient::Headscale(hs);
    let id = hs_client.assign_identity("0123456789abcdef").unwrap();
    assert_eq!(id, "hs-claw-pen-01234567");
}

#[test]
fn config_exposes_the_mesh_slice() {
    let config = Config {
        deployment_mode: claw_pen::config::DeploymentMode::LinuxNative,
        network_backend: NetworkBackend::Headscale,
        runtime_socket: "/var/run/claw-pen.sock".to_string(),
        container_runtime: ContainerRuntimeType::Docker,
        exo_path: None,
        tailscale_auth_key: None,
        headscale_url: Some("https://mesh.example".to_string()),
        headscale_auth_key: Some("pre-auth".to_string()),
        headscale_namespace: None,
        model_servers: ModelServers { ollama: None, llama_cpp: None, vllm: None, lm_studio: None },
        andor_bridge: None,
    };
    let mesh = config.mesh_config().unwrap();
    assert_eq!(mesh.headscale_url.as_deref(), Some("https://mesh.example"));
    let mut local = config;
    local.network_backend = NetworkBackend::Local;
    assert!(local.mesh_config().is_none());
}

#[test]
fn desktop_defaults_and_timestamps() {
    let config = AppConfig::default();
    assert_eq!(config.orchestrator_url, "http://localhost:3000");
    assert!(!config.has_completed_setup);
    let stamp = DateTime { secs: 1700000000 };
    assert_eq!(stamp.to_rfc3339(), "1700000000");
}

#[test]
fn task_status_round_trips() {
    assert_eq!(TaskStatus::InProgress.as_str(), "in_progress");
    assert_eq!(parse_task_status("in_progress"), Some(TaskStatus::InProgress));
    assert_eq!(parse_task_status("nonsense"), None);
    let config = SharedMemoryConfig::default();
    assert_eq!(config.embedding_dim, 1536);
}

#[test]
fn bridge_registration_uses_the_lowered_name() {
    let mut rec = stopped_record("c-1");
    rec.name = "Alpha".to_string();
    let reg = claw_pen::andor::registration_for(&rec);
    assert_eq!(reg.agent_id, "c-1");
    assert_eq!(reg.display_name, "Alpha");
    assert_eq!(reg.triggers, vec!["alpha".to_string()]);
}

#[test]
fn templates_become_configurations() {
    let template = claw_pen::templates::Template {
        name: "starter".to_string(),
        description: None,
        config: claw_pen::templates::TemplateConfig {
            llm_provider: Some("anthropic".to_string()),
            llm_model: Some("m-large".to_string()),
            memory_mb: 2048,
            cpu_millicores: 2000,
        },
        env: vec![("K".to_string(), "V".to_string())],
    };
    let config = claw_pen::templates::config_from_template(&template);
    assert_eq!(config.llm_provider, LlmProvider::Anthropic);
    assert_eq!(config.memory_mb, 2048);
    assert_eq!(config.env_vars.len(), 1);
}
