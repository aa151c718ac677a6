use claw_pen::policy::{build_environment, to_engine_limits, MeshConfig};
use claw_pen::types::{AgentConfig, LlmProvider};

fn base_config() -> AgentConfig {
    AgentConfig {
        llm_provider: LlmProvider::OpenAI,
        llm_model: None,
        memory_mb: 1024,
        cpu_millicores: 1000,
        env_vars: Vec::new(),
        secrets: Vec::new(),
        preset: None,
        restart_policy: claw_pen::types::RestartPolicy::Never,
        health_check: None,
        volumes: Vec::new(),
    }
}

#[test]
fn memory_translation_is_exact() {
    let limits = to_engine_limits(1024, 1000);
    assert_eq!(limits.memory_bytes, 1024u64 * 1024 * 1024);
    assert_eq!(limits.nano_cpus, 1_000_000_000);
    let limits = to_engine_limits(2048, 500);
    assert_eq!(limits.memory_bytes, 2048u64 * 1024 * 1024);
    assert_eq!(limits.nano_cpus, 500_000_000);
}

#[test]
fn cpu_quota_is_monotonic() {
    let lo = to_engine_limits(1024, 250);
    let mid = to_engine_limits(1024, 1000);
    let hi = to_engine_limits(1024, 4000);
    assert!(lo.nano_cpus <= mid.nano_cpus);
    assert!(mid.nano_cpus <= hi.nano_cpus);
}

#[test]
fn reserved_key_wins_over_user_entry() {
    let mut config = base_config();
    config.env_vars.push(("OPENAI_API_KEY".to_string(), "from-user".to_string()));
    config.env_vars.push(("FOO".to_string(), "bar".to_string()));
    let env = build_environment(&config, None);
    let occurrences: Vec<&(String, String)> =
        env.iter().filter(|kv| kv.0 == "OPENAI_API_KEY").collect();
    assert_eq!(occurrences.len(), 1);
    assert_eq!(env[0].0, "OPENAI_API_KEY");
    assert_eq!(env[0].1, "from-user");
    assert!(env.iter().any(|kv| kv.0 == "FOO" && kv.1 == "bar"));
    assert!(env.iter().any(|kv| kv.0 == "LLM_PROVIDER" && kv.1 == "OpenAI"));
}

#[test]
fn secrets_become_markers_not_values() {
    let mut config = base_config();
    config.secrets.push("db".to_string());
    let env = build_environment(&config, None);
    assert!(env.iter().any(|kv| kv.0 == "HAS_SECRET_db" && kv.1 == "true"));
}

#[test]
fn mesh_entries_follow_the_fixed_order() {
    let config = base_config();
    let mesh = MeshConfig {
        headscale_url: Some("https://mesh.example".to_string()),
        headscale_auth_key: Some("pre-auth".to_string()),
        headscale_namespace: None,
    };
    let env = build_environment(&config, Some(&mesh));
    let url_at = env.iter().position(|kv| kv.0 == "HEADSCALE_URL").unwrap();
    let key_at = env.iter().position(|kv| kv.0 == "HEADSCALE_AUTH_KEY").unwrap();
    let ns_at = env.iter().position(|kv| kv.0 == "HEADSCALE_NAMESPACE").unwrap();
    let login_at = env.iter().position(|kv| kv.0 == "TAILSCALE_LOGIN_SERVER").unwrap();
    assert!(url_at < key_at && key_at < ns_at && ns_at < login_at);
    assert_eq!(env[ns_at].1, "claw-pen");
    assert_eq!(env[login_at].1, "${HEADSCALE_URL}");
}

#[test]
fn model_is_passed_when_present() {
    let mut config = base_config();
    config.llm_model = Some("gpt-from-config".to_string());
    let env = build_environment(&config, None);
    assert!(env.iter().any(|kv| kv.0 == "LLM_MODEL" && kv.1 == "gpt-from-config"));
}
