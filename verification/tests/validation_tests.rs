use claw_pen::types::{AgentConfig, LlmProvider, VolumeMount};
use claw_pen::validation::{
    validate, validate_container_name, validate_container_target, validate_cpu_millicores,
    validate_memory_mb, validate_volume_source, ValidationError,
};

fn config_with_volume(source: &str, target: &str) -> AgentConfig {
    AgentConfig {
        llm_provider: LlmProvider::OpenAI,
        llm_model: None,
        memory_mb: 1024,
        cpu_millicores: 1000,
        env_vars: Vec::new(),
        secrets: Vec::new(),
        preset: None,
        restart_policy: claw_pen::types::RestartPolicy::Never,
        health_check: None,
        volumes: vec![VolumeMount {
            source: source.to_string(),
            target: target.to_string(),
            read_only: false,
        }],
    }
}

#[test]
fn sensitive_sources_are_rejected() {
    assert_eq!(
        validate_volume_source("/etc/passwd"),
        Err(ValidationError::InvalidVolumeSource)
    );
    assert_eq!(
        validate_volume_source("/etc/shadow"),
        Err(ValidationError::InvalidVolumeSource)
    );
    assert_eq!(
        validate_volume_source("/root/.ssh/keys"),
        Err(ValidationError::InvalidVolumeSource)
    );
    assert_eq!(
        validate_volume_source("/var/run/docker.sock"),
        Err(ValidationError::InvalidVolumeSource)
    );
}

#[test]
fn traversal_in_target_is_rejected() {
    assert_eq!(
        validate_container_target("/workspace/../etc"),
        Err(ValidationError::InvalidVolumeTarget)
    );
    assert_eq!(
        validate_container_target("relative/path"),
        Err(ValidationError::InvalidVolumeTarget)
    );
}

#[test]
fn plain_home_mount_is_accepted() {
    assert_eq!(validate_volume_source("/home/user/data"), Ok(()));
    assert_eq!(validate_container_target("/workspace"), Ok(()));
    let config = config_with_volume("/home/user/data", "/workspace");
    assert_eq!(validate("alpha", &config), Ok(()));
}

#[test]
fn traversal_in_source_is_rejected() {
    assert_eq!(
        validate_volume_source("/home/../etc/passwd"),
        Err(ValidationError::InvalidVolumeSource)
    );
    let config = config_with_volume("/etc/passwd", "/workspace");
    assert_eq!(
        validate("alpha", &config),
        Err(ValidationError::InvalidVolumeSource)
    );
}

#[test]
fn name_rules() {
    assert_eq!(validate_container_name("alpha"), Ok(()));
    assert_eq!(validate_container_name("agent-1.test_x"), Ok(()));
    assert_eq!(validate_container_name(""), Err(ValidationError::InvalidName));
    assert_eq!(validate_container_name("-leading"), Err(ValidationError::InvalidName));
    assert_eq!(validate_container_name("has space"), Err(ValidationError::InvalidName));
    assert_eq!(
        validate_container_name("a$b"),
        Err(ValidationError::InvalidName)
    );
}

#[test]
fn resource_bounds() {
    assert_eq!(validate_memory_mb(1024), Ok(()));
    assert_eq!(validate_memory_mb(64), Err(ValidationError::InvalidMemory));
    assert_eq!(validate_memory_mb(1_000_000), Err(ValidationError::InvalidMemory));
    assert_eq!(validate_cpu_millicores(1000), Ok(()));
    assert_eq!(validate_cpu_millicores(50), Err(ValidationError::InvalidCpu));
    assert_eq!(validate_cpu_millicores(64000), Err(ValidationError::InvalidCpu));
}

#[test]
fn check_order_reports_the_first_failure() {
    let mut config = config_with_volume("/etc/passwd", "/workspace");
    config.memory_mb = 1;
    assert_eq!(
        validate("bad name!", &config),
        Err(ValidationError::InvalidName)
    );
    assert_eq!(
        validate("alpha", &config),
        Err(ValidationError::InvalidMemory)
    );
}
