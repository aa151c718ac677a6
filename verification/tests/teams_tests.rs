use claw_pen::teams::{
    ClarificationConfig, ResponseTemplates, Router, RouterConfig, RouterMode, RoutingRule, Team,
    TeamAgent, TeamStatus,
};

fn create_test_team() -> Team {
    let mut agents: Vec<(String, TeamAgent)> = Vec::new();
    agents.push((
        "receipts".to_string(),
        TeamAgent {
            agent: "finn".to_string(),
            description: "Handles receipts".to_string(),
        },
    ));
    agents.push((
        "payables".to_string(),
        TeamAgent {
            agent: "pax".to_string(),
            description: "Handles bills".to_string(),
        },
    ));

    let mut routing: Vec<(String, RoutingRule)> = Vec::new();
    routing.push((
        "receipts".to_string(),
        RoutingRule {
            keywords: vec!["receipt".to_string(), "expense".to_string()],
            examples: vec![],
        },
    ));
    routing.push((
        "payables".to_string(),
        RoutingRule {
            keywords: vec!["pay".to_string(), "bill".to_string(), "owe".to_string()],
            examples: vec![],
        },
    ));

    Team {
        id: "test-team".to_string(),
        name: "Test Team".to_string(),
        description: None,
        version: "1.0.0".to_string(),
        router: RouterConfig {
            name: "test-router".to_string(),
            mode: RouterMode::Keyword,
            confidence_threshold_milli: 700,
            clarify_on_low_confidence: true,
        },
        agents,
        routing,
        clarification: ClarificationConfig::default(),
        responses: ResponseTemplates::default(),
        created_at: "0".to_string(),
        status: TeamStatus::Active,
    }
}

#[test]
fn test_keyword_routing() {
    let team = create_test_team();
    let router = Router::new(team);

    let result = router.classify("I have a receipt to submit");
    assert_eq!(result.intent, "receipts");
    assert!(!result.needs_clarification);
}

#[test]
fn test_unknown_routing() {
    let team = create_test_team();
    let router = Router::new(team);

    let result = router.classify("Hello there!");
    assert_eq!(result.intent, "unknown");
    assert!(result.needs_clarification);
}

#[test]
fn test_clarification_generation() {
    let team = create_test_team();
    let router = Router::new(team);

    let clarification = router.generate_clarification();
    assert!(clarification.contains("receipts"));
    assert!(clarification.contains("payables"));
}

#[test]
fn routing_ack_fills_the_template() {
    let team = create_test_team();
    let router = Router::new(team);
    let ack = router.get_routing_ack("Handles receipts");
    assert_eq!(ack, "Let me pass this to Handles receipts...");
}

#[test]
fn target_agent_follows_the_intent() {
    let team = create_test_team();
    let router = Router::new(team);
    let result = router.classify("I have a receipt to submit");
    let agent = router.get_target_agent(&result).unwrap();
    assert_eq!(agent.agent, "finn");
}
