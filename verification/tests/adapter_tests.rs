use claw_pen::config::ContainerRuntimeType;
use claw_pen::container::{
    build_engine_create_request, build_external_run_args, engine_state_to_status, format_cores,
    network_missing, parse_container_id, parse_external_ps, ExoClient, RuntimeClient,
};
use claw_pen::containment::{
    build_isolation_spec, build_mounts, containment_get_logs, isolation_run_args,
    isolation_snapshot, new_log_region, parse_cpu_usage_usec, parse_isolation_list,
    parse_memory_current, ContainmentClient,
};
use claw_pen::errors::EngineError;
use claw_pen::lifecycle::{
    interpret_create_outcome, interpret_delete_outcome, interpret_start_outcome,
    interpret_stop_outcome,
};
use claw_pen::types::{AgentConfig, AgentStatus, BackendKind, LlmProvider, VolumeMount};

fn spec_alpha() -> AgentConfig {
    AgentConfig {
        llm_provider: LlmProvider::OpenAI,
        llm_model: None,
        memory_mb: 1024,
        cpu_millicores: 1000,
        env_vars: Vec::new(),
        secrets: Vec::new(),
        preset: None,
        restart_policy: claw_pen::types::RestartPolicy::Never,
        health_check: None,
        volumes: Vec::new(),
    }
}

#[test]
fn engine_create_request_isolates_the_container() {
    let req = build_engine_create_request("alpha", &spec_alpha(), None).unwrap();
    assert_eq!(req.network_mode, "bridge");
    assert_eq!(req.host_ip, "127.0.0.1");
    assert_eq!(req.exposed_port, 8080);
    assert_eq!(req.memory_bytes, 1024 * 1024 * 1024);
    assert_eq!(req.nano_cpus, 1_000_000_000);
    assert_eq!(req.cap_drop, vec!["ALL".to_string()]);
    assert_eq!(req.cap_add, vec!["NET_BIND_SERVICE".to_string()]);
    assert_eq!(req.security_opt, vec!["no-new-privileges:true".to_string()]);
    assert!(!req.privileged);
    assert_eq!(req.stop_timeout_secs, 10);
    assert!(req
        .labels
        .iter()
        .any(|kv| kv.0 == "claw-pen-agent" && kv.1 == "true"));
    assert!(req
        .labels
        .iter()
        .any(|kv| kv.0 == "claw-pen-agent-name" && kv.1 == "alpha"));
}

#[test]
fn invalid_spec_never_reaches_the_engine() {
    let mut bad = spec_alpha();
    bad.memory_mb = 1;
    assert!(build_engine_create_request("alpha", &bad, None).is_err());
    assert!(build_external_run_args("alpha", &bad).is_err());
    assert!(build_isolation_spec("alpha", &bad).is_err());
}

#[test]
fn engine_states_map_to_lifecycle_states() {
    assert_eq!(engine_state_to_status("running"), AgentStatus::Running);
    assert_eq!(engine_state_to_status("exited"), AgentStatus::Stopped);
    assert_eq!(engine_state_to_status("paused"), AgentStatus::Stopped);
    assert_eq!(engine_state_to_status("created"), AgentStatus::Starting);
    assert_eq!(engine_state_to_status("weird"), AgentStatus::Error);
}

#[test]
fn missing_network_is_detected() {
    let names = vec!["bridge".to_string(), "host".to_string()];
    assert!(network_missing(&names));
    let names = vec!["claw-pen-network".to_string()];
    assert!(!network_missing(&names));
}

#[test]
fn fractional_cores_render_without_trailing_zeros() {
    assert_eq!(format_cores(1000), "1");
    assert_eq!(format_cores(500), "0.5");
    assert_eq!(format_cores(1250), "1.25");
    assert_eq!(format_cores(1125), "1.125");
    assert_eq!(format_cores(2000), "2");
}

#[test]
fn external_run_args_carry_the_limits() {
    let args = build_external_run_args("alpha", &spec_alpha()).unwrap();
    assert_eq!(args[0], "run");
    assert_eq!(args[1], "--name");
    assert_eq!(args[2], "alpha");
    assert_eq!(args[3], "--detach");
    assert_eq!(args[4], "--memory");
    assert_eq!(args[5], "1024m");
    assert_eq!(args[6], "--cpu");
    assert_eq!(args[7], "1");
    assert_eq!(args[args.len() - 2], "openclaw-agent:latest");
    assert_eq!(args[args.len() - 1], "openclaw");
}

#[test]
fn external_ps_table_is_parsed() {
    let out = b"ID NAME STATUS\nabc123 alpha Running\ndef456 beta Exited (0)\nshort\n";
    let rows = parse_external_ps(out);
    assert_eq!(rows.len(), 2);
    assert_eq!(rows[0].id, b"abc123".to_vec());
    assert_eq!(rows[0].name, b"alpha".to_vec());
    assert_eq!(rows[0].status, AgentStatus::Running);
    assert_eq!(rows[1].status, AgentStatus::Stopped);
}

#[test]
fn first_column_is_the_identifier() {
    assert_eq!(parse_container_id(b"abc123  alpha  Running"), Some(b"abc123".to_vec()));
    assert_eq!(parse_container_id(b"   "), None);
}

#[test]
fn isolation_list_table_is_parsed() {
    let out = b"CONTAINER ID\tNAME\tIMAGE\tSTATUS\nc1\talpha\timg\trunning\nc2\tbeta\timg\tstopped\n";
    let rows = parse_isolation_list(out);
    assert_eq!(rows.len(), 2);
    assert_eq!(rows[0].id, b"c1".to_vec());
    assert_eq!(rows[0].status, AgentStatus::Running);
    assert_eq!(rows[1].status, AgentStatus::Stopped);
}

#[test]
fn isolation_spec_isolates_every_namespace() {
    let mut config = spec_alpha();
    config.volumes.push(VolumeMount {
        source: "/home/user/data".to_string(),
        target: "/workspace".to_string(),
        read_only: true,
    });
    config.volumes.push(VolumeMount {
        source: "/etc/passwd".to_string(),
        target: "/workspace".to_string(),
        read_only: false,
    });
    let spec = build_isolation_spec("alpha", &config).unwrap();
    assert!(spec.ns_pid && spec.ns_network && spec.ns_mount && spec.ns_uts);
    assert_eq!(spec.memory, "1024M");
    assert_eq!(spec.cpu, "1");
    assert_eq!(spec.mounts.len(), 1);
    assert_eq!(spec.mounts[0].source, "/home/user/data");
    let args = isolation_run_args("{}".to_string());
    assert_eq!(args, vec!["run", "--config", "{}", "--id-only"]);
}

#[test]
fn mount_policy_filters_in_place() {
    let volumes = vec![
        VolumeMount {
            source: "/home/user/data".to_string(),
            target: "/workspace".to_string(),
            read_only: false,
        },
        VolumeMount {
            source: "/var/run/docker.sock".to_string(),
            target: "/sock".to_string(),
            read_only: false,
        },
    ];
    let mounts = build_mounts(&volumes);
    assert_eq!(mounts.len(), 1);
    assert_eq!(mounts[0].target, "/workspace");
}

#[test]
fn duplicate_create_surfaces_a_name_conflict() {
    let first = interpret_create_outcome(true, b" c-1 \n", b"");
    assert_eq!(first.unwrap(), b"c-1".to_vec());
    let second = interpret_create_outcome(false, b"", b"Error: container name already exists");
    assert!(matches!(second, Err(EngineError::NameConflict)));
}

#[test]
fn stop_twice_never_errors() {
    assert!(interpret_stop_outcome(true, b"").is_ok());
    assert!(interpret_stop_outcome(false, b"container not running").is_ok());
    assert!(interpret_stop_outcome(false, b"No such container: x").is_ok());
    assert!(interpret_stop_outcome(false, b"daemon on fire").is_err());
}

#[test]
fn delete_of_missing_container_is_a_noop_success() {
    assert!(interpret_delete_outcome(false, b"Error: not found").is_ok());
    assert!(interpret_delete_outcome(true, b"").is_ok());
    assert!(interpret_delete_outcome(false, b"disk error").is_err());
}

#[test]
fn start_of_missing_container_is_not_found() {
    assert!(matches!(
        interpret_start_outcome(false, b"no such container"),
        Err(EngineError::NotFound)
    ));
    assert!(interpret_start_outcome(true, b"").is_ok());
}

#[test]
fn logs_of_missing_container_are_empty() {
    let logs = claw_pen::container::logs_from_lines(b"", "99");
    assert_eq!(logs.len(), 0);
    let logs = containment_get_logs(b"", 50, "99");
    assert_eq!(logs.len(), 0);
}

#[test]
fn log_lines_get_wrapped_and_json_fields_extracted() {
    let content =
        b"plain line\n{\"timestamp\":\"t1\",\"level\":\"warn\",\"message\":\"json line\"}\n";
    let logs = containment_get_logs(content, 50, "now-stamp");
    assert_eq!(logs.len(), 2);
    assert_eq!(logs[0].timestamp, "now-stamp");
    assert_eq!(logs[0].level, "info");
    assert_eq!(logs[0].message, "plain line");
    assert_eq!(logs[1].timestamp, "t1");
    assert_eq!(logs[1].level, "warn");
    assert_eq!(logs[1].message, "json line");
    let tailed = containment_get_logs(content, 1, "now-stamp");
    assert_eq!(tailed.len(), 1);
    assert_eq!(tailed[0].message, "json line");
}

#[test]
fn accounting_counters_are_parsed() {
    assert_eq!(parse_memory_current(b" 2097152 \n"), 2097152);
    assert_eq!(parse_memory_current(b"garbage"), 0);
    let stat = b"usage_usec 2500000\nuser_usec 1\n";
    assert_eq!(parse_cpu_usage_usec(stat), 2_500_000);
    let snap = isolation_snapshot(2097152, 2_500_000);
    assert_eq!(snap.memory_mb, 2);
    assert_eq!(snap.cpu_percent, 2);
    assert_eq!(snap.network_rx_bytes, 0);
}

#[test]
fn log_poll_reads_only_the_grown_suffix() {
    assert_eq!(new_log_region(100, 180), Some((100, 80)));
    assert_eq!(new_log_region(100, 100), None);
    assert_eq!(new_log_region(100, 40), None);
}

#[test]
fn facade_falls_back_when_the_engine_is_unreachable() {
    let primary = RuntimeClient::with_runtime(ContainerRuntimeType::Docker, None, true);
    assert_eq!(primary.backend, BackendKind::EngineSocket);
    let fallback = RuntimeClient::with_runtime(ContainerRuntimeType::Docker, None, false);
    assert_eq!(fallback.backend, BackendKind::IsolationCli);
    let external = RuntimeClient::with_runtime(ContainerRuntimeType::Exo, None, true);
    assert_eq!(external.backend, BackendKind::ExternalCli);
    assert_eq!(
        primary.adapter_for(&Some(BackendKind::ExternalCli)),
        BackendKind::ExternalCli
    );
    assert_eq!(primary.adapter_for(&None), BackendKind::EngineSocket);
}

#[test]
fn external_cli_construction_fails_loudly_without_the_tool() {
    let client = ExoClient::with_path(None);
    assert_eq!(client.exo_path, "exo");
    let probed = client.probe_result(false);
    assert!(matches!(probed, Err(EngineError::Connection(_))));
    let client = ExoClient::with_path(Some("/opt/tools/exo".to_string()));
    assert!(client.probe_result(true).is_ok());
}

#[test]
fn isolation_command_routes_through_the_compat_layer() {
    let direct = ContainmentClient::new().unwrap();
    let (program, args) = direct.build_command();
    assert_eq!(program, "openclaw-runtime");
    assert!(args.is_empty());
    let wrapped = ContainmentClient::with_compat_layer("wsl".to_string(), "containment".to_string());
    let (program, args) = wrapped.build_command();
    assert_eq!(program, "wsl");
    assert_eq!(args, vec!["-d", "containment", "--", "openclaw-runtime"]);
}
