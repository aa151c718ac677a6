use claw_pen::roster::{find_agent, reconcile, remove_record, update_status};
use claw_pen::storage::{
    remove_agent, status_from_str, status_to_str, stored_to_container, to_stored_agent,
    upsert_agent, StoredAgent,
};
use claw_pen::types::{AgentConfig, AgentContainer, AgentStatus, BackendKind};

fn record(id: &str, name: &str, status: AgentStatus) -> AgentContainer {
    AgentContainer {
        id: id.to_string(),
        name: name.to_string(),
        status,
        config: AgentConfig::default(),
        tailscale_ip: None,
        resource_usage: None,
        project: None,
        tags: Vec::new(),
        restart_policy: claw_pen::types::RestartPolicy::Never,
        health_status: None,
        runtime: None,
    }
}

fn stored(id: &str, name: &str, status: &str) -> StoredAgent {
    StoredAgent {
        id: id.to_string(),
        name: name.to_string(),
        status: status.to_string(),
        config: AgentConfig::default(),
        created_at: "1".to_string(),
        updated_at: "1".to_string(),
        runtime: None,
    }
}

#[test]
fn reconciliation_joins_persisted_and_live() {
    let persisted = vec![stored("a", "alpha", "running"), stored("b", "beta", "running")];
    let live = vec![
        record("a", "alpha", AgentStatus::Running),
        record("c", "gamma", AgentStatus::Stopped),
    ];
    let roster = reconcile(&persisted, &live);
    assert_eq!(roster.len(), 3);
    assert_eq!(roster[0].id, "a");
    assert_eq!(roster[0].status, AgentStatus::Running);
    assert_eq!(roster[1].id, "b");
    assert_eq!(roster[1].status, AgentStatus::Stopped);
    assert_eq!(roster[2].id, "c");
    assert_eq!(roster[2].name, "gamma");
    let mut ids: Vec<&str> = roster.iter().map(|r| r.id.as_str()).collect();
    ids.sort();
    ids.dedup();
    assert_eq!(ids.len(), 3);
}

#[test]
fn reconciliation_adopts_the_live_state() {
    let persisted = vec![stored("a", "alpha", "stopped")];
    let live = vec![record("a", "alpha", AgentStatus::Running)];
    let roster = reconcile(&persisted, &live);
    assert_eq!(roster.len(), 1);
    assert_eq!(roster[0].status, AgentStatus::Running);
}

#[test]
fn catalog_upsert_replaces_in_place() {
    let mut agents: Vec<StoredAgent> = Vec::new();
    upsert_agent(&mut agents, stored("a", "alpha", "stopped"));
    upsert_agent(&mut agents, stored("b", "beta", "stopped"));
    upsert_agent(&mut agents, stored("a", "alpha", "running"));
    assert_eq!(agents.len(), 2);
    assert_eq!(agents[0].status, "running");
    assert_eq!(agents[1].id, "b");
}

#[test]
fn catalog_remove_of_missing_id_is_a_noop() {
    let mut agents = vec![stored("a", "alpha", "stopped")];
    remove_agent(&mut agents, "does-not-exist");
    assert_eq!(agents.len(), 1);
    remove_agent(&mut agents, "a");
    assert_eq!(agents.len(), 0);
    remove_agent(&mut agents, "a");
    assert_eq!(agents.len(), 0);
}

#[test]
fn roster_remove_of_missing_id_is_a_noop() {
    let mut roster = vec![record("a", "alpha", AgentStatus::Stopped)];
    remove_record(&mut roster, "ghost");
    assert_eq!(roster.len(), 1);
    remove_record(&mut roster, "a");
    assert_eq!(roster.len(), 0);
}

#[test]
fn roster_lookup_and_status_update() {
    let mut roster = vec![
        record("a", "alpha", AgentStatus::Stopped),
        record("b", "beta", AgentStatus::Stopped),
    ];
    assert_eq!(find_agent(&roster, "b"), Some(1));
    assert_eq!(find_agent(&roster, "z"), None);
    assert!(update_status(&mut roster, "b", AgentStatus::Running));
    assert_eq!(roster[1].status, AgentStatus::Running);
    assert_eq!(roster[0].status, AgentStatus::Stopped);
    assert!(!update_status(&mut roster, "z", AgentStatus::Running));
}

#[test]
fn stored_status_texts() {
    assert_eq!(status_to_str(AgentStatus::Running), "Running");
    assert_eq!(status_from_str("running"), AgentStatus::Running);
    assert_eq!(status_from_str("stopping"), AgentStatus::Stopping);
    assert_eq!(status_from_str("nonsense"), AgentStatus::Stopped);
}

#[test]
fn storage_round_trip_keeps_the_identifier() {
    let rec = record("a", "alpha", AgentStatus::Running);
    let on_disk = to_stored_agent(&rec, 12345);
    assert_eq!(on_disk.id, "a");
    assert_eq!(on_disk.status, "Running");
    assert_eq!(on_disk.created_at, "12345");
    let back = stored_to_container(on_disk);
    assert_eq!(back.id, "a");
    assert_eq!(back.name, "alpha");
}
