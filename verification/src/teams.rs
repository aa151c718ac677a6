//! Teams: a single router entry point that classifies incoming
//! messages by keyword and routes them to the right specialist agent.
//! Confidence is carried in thousandths, so the scoring is exact
//! integer arithmetic.

use vstd::prelude::*;

verus! {

use crate::bytes::{
    spec_lower, spec_contains, to_ascii_lower, bytes_contains, replace_bytes, join_bytes,
    bytes_to_string, str_eq, append_bytes,
};

/// Whether a team is serving.
#[derive(Clone, Copy, Debug, PartialEq, Eq, Structural)]
pub enum TeamStatus {
    Active,
    Inactive,
    Starting,
    Error,
}

/// How the router classifies: by keyword, by language model, or
/// keywords first with a model fallback.
#[derive(Clone, Copy, Debug, PartialEq, Eq, Structural)]
pub enum RouterMode {
    Keyword,
    Llm,
    Hybrid,
}

/// One specialist agent of a team.
#[derive(Clone, Debug)]
pub struct TeamAgent {
    /// The agent identifier to route to.
    pub agent: String,
    /// What this agent handles.
    pub description: String,
}

/// The routing rule of one intent.
#[derive(Clone, Debug)]
pub struct RoutingRule {
    /// Keywords that trigger this route.
    pub keywords: Vec<String>,
    /// Example messages for this intent.
    pub examples: Vec<String>,
}

/// Prompts shown when the intent is unclear.
#[derive(Clone, Debug)]
pub struct ClarificationConfig {
    pub prompts: Vec<String>,
    pub options_format: String,
}

impl Default for ClarificationConfig {
    fn default() -> (r: Self)
        ensures
            r.prompts@.len() == 2,
            r.options_format@ == "- {intent}: {description}"@,
    {
        let mut prompts: Vec<String> = Vec::new();
        prompts.push("I'm not sure what you need. Are you asking about:".to_owned());
        prompts.push("Could you clarify? This could be:".to_owned());
        ClarificationConfig { prompts, options_format: "- {intent}: {description}".to_owned() }
    }
}

/// Response templates of the router.
#[derive(Clone, Debug)]
pub struct ResponseTemplates {
    pub routing_ack: String,
    pub clarification_needed: String,
    pub agent_response_prefix: Option<String>,
}

impl Default for ResponseTemplates {
    fn default() -> (r: Self)
        ensures
            r.routing_ack@ == "Let me pass this to {agent_name}..."@,
            r.clarification_needed@ == "I need a bit more info to help you best."@,
            r.agent_response_prefix is None,
    {
        ResponseTemplates {
            routing_ack: "Let me pass this to {agent_name}...".to_owned(),
            clarification_needed: "I need a bit more info to help you best.".to_owned(),
            agent_response_prefix: None,
        }
    }
}

/// Router configuration: classification mode and the confidence
/// threshold, in thousandths, below which the router asks for
/// clarification.
#[derive(Clone, Debug)]
pub struct RouterConfig {
    pub name: String,
    pub mode: RouterMode,
    /// Minimum confidence, in thousandths, to route without asking.
    pub confidence_threshold_milli: u32,
    pub clarify_on_low_confidence: bool,
}

/// A team of agents with a single router entry point.
#[derive(Clone, Debug)]
pub struct Team {
    pub id: String,
    pub name: String,
    pub description: Option<String>,
    pub version: String,
    pub router: RouterConfig,
    /// Specialists by intent, in configuration order.
    pub agents: Vec<(String, TeamAgent)>,
    /// Routing rules by intent, in configuration order.
    pub routing: Vec<(String, RoutingRule)>,
    pub clarification: ClarificationConfig,
    pub responses: ResponseTemplates,
    pub created_at: String,
    pub status: TeamStatus,
}

/// Request to create a new team.
#[derive(Clone, Debug)]
pub struct CreateTeamRequest {
    pub name: String,
    pub description: Option<String>,
    pub router_name: Option<String>,
    pub agents: Vec<(String, TeamAgent)>,
    pub routing: Vec<(String, RoutingRule)>,
}

/// The result of classifying a message.
#[derive(Clone, Debug)]
pub struct ClassificationResult {
    /// The detected intent: a routing key, or `unknown`.
    pub intent: String,
    /// Confidence in thousandths, at most 1000.
    pub confidence_milli: u32,
    pub matched_keywords: Vec<String>,
    pub needs_clarification: bool,
}

/// A message routed through a team.
#[derive(Clone, Debug)]
pub struct RoutedMessage {
    pub team_id: String,
    pub conversation_id: String,
    pub user_message: String,
    pub classification: Option<ClassificationResult>,
    pub target_agent: Option<String>,
    pub agent_response: Option<String>,
    pub timestamp: String,
}

/// The registry of all teams.
pub struct TeamRegistry {
    pub teams: Vec<Team>,
    pub teams_dir: String,
}

impl TeamRegistry {
    /// An empty registry rooted at a directory.
    pub fn new(teams_dir: &str) -> (r: Self)
        ensures
            r.teams@.len() == 0,
            r.teams_dir@ == teams_dir@,
    {
        TeamRegistry { teams: Vec::new(), teams_dir: teams_dir.to_owned() }
    }

    /// The teams, in load order.
    pub fn list(&self) -> (r: &Vec<Team>)
        ensures
            r == &self.teams,
    {
        &self.teams
    }

    /// The first team with this identifier.
    pub fn get(&self, id: &str) -> (r: Option<&Team>)
        ensures
            match r {
                Some(t) => exists|j: int|
                    0 <= j < self.teams@.len() && (#[trigger] self.teams@[j]).id@ == id@,
                None => forall|j: int|
                    0 <= j < self.teams@.len() ==> (#[trigger] self.teams@[j]).id@ != id@,
            },
    {
        let mut i: usize = 0;
        while i < self.teams.len()
            invariant
                i <= self.teams@.len(),
                forall|j: int| 0 <= j < i ==> (#[trigger] self.teams@[j]).id@ != id@,
            decreases self.teams@.len() - i,
        {
            if str_eq(self.teams[i].id.as_str(), id) {
                return Some(&self.teams[i]);
            }
            i = i + 1;
        }
        None
    }

    /// Add a team; an existing team under the same identifier is
    /// replaced.
    pub fn upsert(&mut self, team: Team)
        ensures
            final(self).teams@.len() >= 1,
            final(self).teams_dir == old(self).teams_dir,
    {
        let mut i: usize = 0;
        while i < self.teams.len()
            invariant
                i <= self.teams@.len(),
                self.teams_dir == old(self).teams_dir,
                self.teams@.len() == old(self).teams@.len(),
            decreases self.teams@.len() - i,
        {
            if str_eq(self.teams[i].id.as_str(), team.id.as_str()) {
                self.teams.set(i, team);
                return ;
            }
            i = i + 1;
        }
        self.teams.push(team);
    }

    /// Remove the first team with this identifier, handing it back.
    pub fn remove(&mut self, id: &str) -> (r: Option<Team>)
        ensures
            final(self).teams_dir == old(self).teams_dir,
    {
        let mut i: usize = 0;
        while i < self.teams.len()
            invariant
                i <= self.teams@.len(),
                self.teams_dir == old(self).teams_dir,
                self.teams@ == old(self).teams@,
            decreases self.teams@.len() - i,
        {
            if str_eq(self.teams[i].id.as_str(), id) {
                return Some(self.teams.remove(i));
            }
            i = i + 1;
        }
        None
    }
}

/// Whether any keyword of one rule occurs in the lower-cased message.
pub open spec fn spec_rule_matches(msg: Seq<u8>, keywords: Seq<Seq<char>>) -> bool {
    exists|k: int|
        0 <= k < keywords.len() && spec_contains(
            spec_lower(msg),
            spec_lower(vstd::utf8::encode_utf8(#[trigger] keywords[k])),
        )
}

/// Whether any routing rule of a team has a keyword occurring in the
/// message.
pub open spec fn spec_any_rule_matches(
    routing: Seq<(String, RoutingRule)>,
    msg: Seq<u8>,
) -> bool {
    exists|j: int|
        0 <= j < routing.len() && spec_rule_matches(
            msg,
            (#[trigger] routing[j]).1.keywords.deep_view(),
        )
}

/// The router of one team: classifies messages and names the target
/// specialist.
pub struct Router {
    pub team: Team,
}

impl Router {
    /// A router over a team.
    pub fn new(team: Team) -> (r: Self)
        ensures
            r.team == team,
    {
        Router { team }
    }

    /// Keyword classification: each rule scores by its matching
    /// keywords — a keyword matches when the lower-cased message
    /// contains its lower-cased text, and longer keywords score
    /// higher, one hundred thousandths per character — and the
    /// best-scoring intent wins, its confidence the capped average
    /// score. No match at all yields `unknown` with full
    /// clarification.
    #[verifier::loop_isolation(false)]
    pub fn classify_by_keywords(&self, message: &str) -> (r: ClassificationResult)
        ensures
            r.confidence_milli <= 1000,
            r.needs_clarification == (r.confidence_milli
                < self.team.router.confidence_threshold_milli
                && self.team.router.clarify_on_low_confidence) || (r.confidence_milli == 0
                && r.needs_clarification),
            forall|k: int|
                0 <= k < r.matched_keywords@.len() ==> spec_contains(
                    spec_lower(vstd::utf8::encode_utf8(message@)),
                    spec_lower(
                        vstd::utf8::encode_utf8((#[trigger] r.matched_keywords@[k])@),
                    ),
                ),
            !spec_any_rule_matches(self.team.routing@, vstd::utf8::encode_utf8(message@)) ==> (
            r.intent@ == "unknown"@ && r.confidence_milli == 0 && r.matched_keywords@.len() == 0
                && r.needs_clarification),
            spec_any_rule_matches(self.team.routing@, vstd::utf8::encode_utf8(message@))
                ==> r.matched_keywords@.len() > 0,
    {
        let ghost msgb = vstd::utf8::encode_utf8(message@);
        let message_lower = to_ascii_lower(message.as_bytes());
        let mut best_intent: Option<String> = None;
        let mut best_conf: u32 = 0;
        let mut best_matched: Vec<String> = Vec::new();
        let mut i: usize = 0;
        while i < self.team.routing.len()
            invariant
                i <= self.team.routing@.len(),
                best_conf <= 1000,
                best_intent is None ==> best_conf == 0 && best_matched@.len() == 0,
                best_intent is Some ==> best_matched@.len() > 0,
                best_intent is Some <==> exists|j: int|
                    0 <= j < i && spec_rule_matches(
                        msgb,
                        (#[trigger] self.team.routing@[j]).1.keywords.deep_view(),
                    ),
                forall|k: int|
                    0 <= k < best_matched@.len() ==> spec_contains(
                        spec_lower(vstd::utf8::encode_utf8(message@)),
                        spec_lower(
                            vstd::utf8::encode_utf8((#[trigger] best_matched@[k])@),
                        ),
                    ),
            decreases self.team.routing@.len() - i,
        {
            let rule = &self.team.routing[i].1;
            let ghost kdv = rule.keywords.deep_view();
            let mut matched: Vec<String> = Vec::new();
            let mut score: u64 = 0;
            let mut k: usize = 0;
            while k < rule.keywords.len()
                invariant
                    score <= 1000000000000,
                    k <= rule.keywords@.len(),
                    kdv.len() == rule.keywords@.len(),
                    forall|m: int| 0 <= m < kdv.len() ==> kdv[m] == rule.keywords@[m]@,
                    matched@.len() <= k,
                    matched@.len() > 0 <==> exists|m: int|
                        0 <= m < k && spec_contains(
                            spec_lower(msgb),
                            spec_lower(vstd::utf8::encode_utf8(#[trigger] kdv[m])),
                        ),
                    forall|m: int|
                        0 <= m < matched@.len() ==> spec_contains(
                            spec_lower(vstd::utf8::encode_utf8(message@)),
                            spec_lower(
                                vstd::utf8::encode_utf8((#[trigger] matched@[m])@),
                            ),
                        ),
                decreases rule.keywords@.len() - k,
            {
                let kw = &rule.keywords[k];
                let kw_lower = to_ascii_lower(kw.as_str().as_bytes());
                if bytes_contains(message_lower.as_slice(), kw_lower.as_slice()) {
                    proof {
                        vstd::utf8::encode_utf8_decode_utf8(message@);
                        vstd::utf8::encode_utf8_decode_utf8(kw@);
                        assert(kdv[k as int] == kw@);
                    }
                    matched.push(kw.clone());
                    let kw_len = kw.as_str().as_bytes().len();
                    let capped: u64 = if kw_len > 10000 {
                        1000000
                    } else {
                        (kw_len as u64) * 100
                    };
                    if score <= 999999000000 {
                        score = score + capped;
                    }
                }
                k = k + 1;
            }
            proof {
                if matched@.len() > 0 {
                    assert(spec_rule_matches(msgb, kdv));
                }
            }
            if matched.len() > 0 {
                let raw = score / (matched.len() as u64);
                let conf: u32 = if raw > 1000 {
                    1000
                } else {
                    raw as u32
                };
                if best_intent.is_none() || conf > best_conf {
                    best_intent = Some(self.team.routing[i].0.clone());
                    best_conf = conf;
                    best_matched = matched;
                }
                proof {
                    assert(exists|j: int|
                        0 <= j < i + 1 && spec_rule_matches(
                            msgb,
                            (#[trigger] self.team.routing@[j]).1.keywords.deep_view(),
                        ));
                }
            } else {
                proof {
                    assert(!spec_rule_matches(msgb, kdv));
                }
            }
            i = i + 1;
        }
        match best_intent {
            Some(intent) => {
                let needs = best_conf < self.team.router.confidence_threshold_milli
                    && self.team.router.clarify_on_low_confidence;
                ClassificationResult {
                    intent,
                    confidence_milli: best_conf,
                    matched_keywords: best_matched,
                    needs_clarification: needs,
                }
            },
            None => ClassificationResult {
                intent: "unknown".to_owned(),
                confidence_milli: 0,
                matched_keywords: Vec::new(),
                needs_clarification: true,
            },
        }
    }

    /// Language-model classification is not wired up: it reports an
    /// unknown intent with no confidence, so the keyword path decides.
    pub fn classify_by_llm(&self, _message: &str) -> (r: ClassificationResult)
        ensures
            r.intent@ == "unknown"@,
            r.confidence_milli == 0,
            r.matched_keywords@.len() == 0,
            r.needs_clarification,
    {
        ClassificationResult {
            intent: "unknown".to_owned(),
            confidence_milli: 0,
            matched_keywords: Vec::new(),
            needs_clarification: true,
        }
    }

    /// Classify a message under the router's mode: keywords, the
    /// model, or keywords first with the model as the low-confidence
    /// fallback — whichever answer is more confident wins.
    pub fn classify(&self, message: &str) -> (r: ClassificationResult)
        ensures
            r.confidence_milli <= 1000,
    {
        match self.team.router.mode {
            RouterMode::Keyword => self.classify_by_keywords(message),
            RouterMode::Llm => self.classify_by_llm(message),
            RouterMode::Hybrid => {
                let keyword_result = self.classify_by_keywords(message);
                if keyword_result.confidence_milli
                    >= self.team.router.confidence_threshold_milli {
                    keyword_result
                } else {
                    let llm_result = self.classify_by_llm(message);
                    if llm_result.confidence_milli > keyword_result.confidence_milli {
                        llm_result
                    } else {
                        keyword_result
                    }
                }
            },
        }
    }

    /// The specialist a classification routes to: the first team
    /// entry under the detected intent.
    pub fn get_target_agent(&self, classification: &ClassificationResult) -> (r: Option<
        &TeamAgent,
    >)
        ensures
            r is Some ==> exists|j: int|
                0 <= j < self.team.agents@.len() && (#[trigger] self.team.agents@[j]).0@
                    == classification.intent@,
            r is None ==> forall|j: int|
                0 <= j < self.team.agents@.len() ==> (#[trigger] self.team.agents@[j]).0@
                    != classification.intent@,
    {
        let mut i: usize = 0;
        while i < self.team.agents.len()
            invariant
                i <= self.team.agents@.len(),
                forall|j: int|
                    0 <= j < i ==> (#[trigger] self.team.agents@[j]).0@
                        != classification.intent@,
            decreases self.team.agents@.len() - i,
        {
            if str_eq(self.team.agents[i].0.as_str(), classification.intent.as_str()) {
                return Some(&self.team.agents[i].1);
            }
            i = i + 1;
        }
        None
    }

    /// The clarification message: the first configured prompt (or a
    /// fixed fallback), then one option line per specialist, built
    /// from the options format with its placeholders filled in.
    #[verifier::loop_isolation(false)]
    pub fn generate_clarification(&self) -> (r: String) {
        let mut options: Vec<Vec<u8>> = Vec::new();
        let fmt = self.team.clarification.options_format.as_str().as_bytes();
        proof {
            broadcast use vstd::string::is_ascii_spec_bytes;

            reveal_strlit("{intent}");
            reveal_strlit("{description}");
            assert(vstd::string::is_ascii("{intent}"));
            assert(vstd::string::is_ascii("{description}"));
            assert("{intent}"@.len() == 8 && "{description}"@.len() == 13);
        }
        let mut i: usize = 0;
        while i < self.team.agents.len()
            invariant
                i <= self.team.agents@.len(),
            decreases self.team.agents@.len() - i,
        {
            let with_intent = replace_bytes(
                fmt,
                "{intent}".as_bytes(),
                self.team.agents[i].0.as_str().as_bytes(),
            );
            let line = replace_bytes(
                with_intent.as_slice(),
                "{description}".as_bytes(),
                self.team.agents[i].1.description.as_str().as_bytes(),
            );
            options.push(line);
            i = i + 1;
        }
        let joined = join_bytes(&options, "\n".as_bytes());
        let mut body: Vec<u8> = Vec::new();
        if self.team.clarification.prompts.len() > 0 {
            append_bytes(&mut body, self.team.clarification.prompts[0].as_str().as_bytes());
        } else {
            append_bytes(&mut body, "What would you like help with?".as_bytes());
        }
        append_bytes(&mut body, "\n\n".as_bytes());
        append_bytes(&mut body, joined.as_slice());
        bytes_to_string(body.as_slice())
    }

    /// The routing acknowledgment for a target agent.
    pub fn get_routing_ack(&self, agent_name: &str) -> (r: String) {
        proof {
            broadcast use vstd::string::is_ascii_spec_bytes;

            reveal_strlit("{agent_name}");
            assert(vstd::string::is_ascii("{agent_name}"));
            assert("{agent_name}"@.len() == 12);
        }
        let filled = replace_bytes(
            self.team.responses.routing_ack.as_str().as_bytes(),
            "{agent_name}".as_bytes(),
            agent_name.as_bytes(),
        );
        bytes_to_string(filled.as_slice())
    }
}

/// What the team chat does with one classified message: ask for
/// clarification, route to the named specialist with an
/// acknowledgment, or report that no specialist matches.
pub enum TeamReply {
    Clarify(String),
    RouteTo { agent: String, ack: String },
    NoTarget,
}

impl Router {
    /// Decide the team's reply to one message: classify it, then
    /// clarify, route, or give up — the one decision the chat loop
    /// performs per message.
    pub fn route_message(&self, message: &str) -> (r: TeamReply) {
        let classification = self.classify(message);
        if classification.needs_clarification {
            return TeamReply::Clarify(self.generate_clarification());
        }
        match self.get_target_agent(&classification) {
            Some(agent) => {
                let ack = self.get_routing_ack(agent.description.as_str());
                TeamReply::RouteTo { agent: agent.agent.clone(), ack }
            },
            None => TeamReply::NoTarget,
        }
    }
}

} // verus!
