//! The request-handling core: everything the API surface decides that
//! does not touch a socket. Each handler in the embedding program is a
//! thin shell around one of these functions — it performs the engine
//! call or file read and hands the outcome here.

use vstd::prelude::*;

verus! {

use vstd::string::StringSliceAdditionalSpecFns;
use crate::bytes::{
    spec_lower, spec_lines, spec_chars_of, spec_all_ascii, to_ascii_lower, ascii_str, str_eq,
    lines_of, split_ws, parse_u64, bytes_starts_with, push_string,
};
use crate::types::{
    AgentConfig, AgentContainer, AgentContainerView, AgentStatus, BackendKind, HealthStatus,
    LlmProvider, Project, ProviderView, env_upsert, spec_env_upsert,
};
use crate::errors::EngineError;

/// Summary of one template, as the listing endpoint reports it.
#[derive(Clone, Debug)]
pub struct TemplateInfo {
    pub name: String,
    pub description: Option<String>,
    pub provider: Option<String>,
    pub model: Option<String>,
}

/// Request to store a provider credential.
#[derive(Clone, Debug)]
pub struct SetApiKeyRequest {
    pub provider: String,
    pub key: String,
}

/// Whether a provider has a stored credential.
#[derive(Clone, Debug)]
pub struct ApiKeyInfo {
    pub provider: String,
    pub has_key: bool,
}

/// Request to classify one message against a team's routing rules.
#[derive(Clone, Debug)]
pub struct ClassifyRequest {
    pub message: String,
}

/// The provider a request names, lower-cased; an unknown name
/// degrades to the default provider.
pub open spec fn spec_parse_provider(b: Seq<u8>) -> ProviderView {
    let l = spec_lower(b);
    if l == "openai"@.map(|_i: int, c: char| c as u8) {
        ProviderView::OpenAI
    } else if l == "anthropic"@.map(|_i: int, c: char| c as u8) {
        ProviderView::Anthropic
    } else if l == "gemini"@.map(|_i: int, c: char| c as u8) {
        ProviderView::Gemini
    } else if l == "kimi"@.map(|_i: int, c: char| c as u8) {
        ProviderView::Kimi
    } else if l == "zai"@.map(|_i: int, c: char| c as u8) {
        ProviderView::Zai
    } else if l == "huggingface"@.map(|_i: int, c: char| c as u8) {
        ProviderView::Huggingface
    } else if l == "ollama"@.map(|_i: int, c: char| c as u8) {
        ProviderView::Ollama
    } else if l == "llamacpp"@.map(|_i: int, c: char| c as u8) {
        ProviderView::LlamaCpp
    } else if l == "vllm"@.map(|_i: int, c: char| c as u8) {
        ProviderView::Vllm
    } else if l == "lmstudio"@.map(|_i: int, c: char| c as u8) {
        ProviderView::Lmstudio
    } else {
        ProviderView::OpenAI
    }
}

/// Parse a provider name.
pub fn parse_provider(s: &str) -> (r: LlmProvider)
    ensures
        r@ == spec_parse_provider(s.spec_bytes()),
{
    proof {
        reveal_strlit("openai");
        reveal_strlit("anthropic");
        reveal_strlit("gemini");
        reveal_strlit("kimi");
        reveal_strlit("zai");
        reveal_strlit("huggingface");
        reveal_strlit("ollama");
        reveal_strlit("llamacpp");
        reveal_strlit("vllm");
        reveal_strlit("lmstudio");
        assert(vstd::string::is_ascii("openai"));
        assert(vstd::string::is_ascii("anthropic"));
        assert(vstd::string::is_ascii("gemini"));
        assert(vstd::string::is_ascii("kimi"));
        assert(vstd::string::is_ascii("zai"));
        assert(vstd::string::is_ascii("huggingface"));
        assert(vstd::string::is_ascii("ollama"));
        assert(vstd::string::is_ascii("llamacpp"));
        assert(vstd::string::is_ascii("vllm"));
        assert(vstd::string::is_ascii("lmstudio"));
    }
    let l = to_ascii_lower(s.as_bytes());
    let lb = l.as_slice();
    if crate::bytes::eq_ascii(lb, "openai") {
        LlmProvider::OpenAI
    } else if crate::bytes::eq_ascii(lb, "anthropic") {
        LlmProvider::Anthropic
    } else if crate::bytes::eq_ascii(lb, "gemini") {
        LlmProvider::Gemini
    } else if crate::bytes::eq_ascii(lb, "kimi") {
        LlmProvider::Kimi
    } else if crate::bytes::eq_ascii(lb, "zai") {
        LlmProvider::Zai
    } else if crate::bytes::eq_ascii(lb, "huggingface") {
        LlmProvider::Huggingface
    } else if crate::bytes::eq_ascii(lb, "ollama") {
        LlmProvider::Ollama
    } else if crate::bytes::eq_ascii(lb, "llamacpp") {
        LlmProvider::LlamaCpp
    } else if crate::bytes::eq_ascii(lb, "vllm") {
        LlmProvider::Vllm
    } else if crate::bytes::eq_ascii(lb, "lmstudio") {
        LlmProvider::Lmstudio
    } else {
        LlmProvider::OpenAI
    }
}

/// The environment variable a provider's credential is injected
/// under when a request carries one.
pub open spec fn spec_api_key_env_name(p: ProviderView) -> Seq<char> {
    match p {
        ProviderView::Zai => "ZAI_API_KEY"@,
        ProviderView::Anthropic => "ANTHROPIC_API_KEY"@,
        ProviderView::OpenAI => "OPENAI_API_KEY"@,
        ProviderView::Kimi => "KIMI_API_KEY"@,
        ProviderView::KimiCode => "KIMI_CODE_API_KEY"@,
        ProviderView::Gemini => "GOOGLE_API_KEY"@,
        ProviderView::Access => "ACCESS_API_KEY"@,
        ProviderView::Huggingface => "HF_TOKEN"@,
        _ => "API_KEY"@,
    }
}

/// The credential variable name for a provider.
pub fn api_key_env_name(p: &LlmProvider) -> (r: &'static str)
    ensures
        r@ == spec_api_key_env_name(p@),
{
    match p {
        LlmProvider::Zai => "ZAI_API_KEY",
        LlmProvider::Anthropic => "ANTHROPIC_API_KEY",
        LlmProvider::OpenAI => "OPENAI_API_KEY",
        LlmProvider::Kimi => "KIMI_API_KEY",
        LlmProvider::KimiCode => "KIMI_CODE_API_KEY",
        LlmProvider::Gemini => "GOOGLE_API_KEY",
        LlmProvider::Access => "ACCESS_API_KEY",
        LlmProvider::Huggingface => "HF_TOKEN",
        _ => "API_KEY",
    }
}

/// Inject a request's credential into the configuration's environment
/// under the provider's variable name.
pub fn inject_api_key(config: &mut AgentConfig, key: String)
    ensures
        final(config).env_vars.deep_view() == spec_env_upsert(
            old(config).env_vars.deep_view(),
            spec_api_key_env_name(old(config).llm_provider@),
            key@,
        ),
        final(config).llm_provider@ == old(config).llm_provider@,
        final(config).llm_model == old(config).llm_model,
        final(config).memory_mb == old(config).memory_mb,
        final(config).cpu_millicores == old(config).cpu_millicores,
        final(config).secrets == old(config).secrets,
        final(config).preset == old(config).preset,
        final(config).restart_policy == old(config).restart_policy,
        final(config).health_check == old(config).health_check,
        final(config).volumes == old(config).volumes,
{
    let name = api_key_env_name(&config.llm_provider);
    env_upsert(&mut config.env_vars, name, key);
}

/// The per-agent backend pin a request names: the engine tag, the
/// external CLI tag, or nothing the system knows.
pub open spec fn spec_parse_runtime_tag(b: Seq<u8>) -> Option<BackendKind> {
    let l = spec_lower(b);
    if l == "docker"@.map(|_i: int, c: char| c as u8) {
        Some(BackendKind::EngineSocket)
    } else if l == "exo"@.map(|_i: int, c: char| c as u8) {
        Some(BackendKind::ExternalCli)
    } else {
        None
    }
}

/// Parse a requested backend pin; an unknown tag is rejected, not
/// guessed.
pub fn parse_runtime_tag(s: &str) -> (r: Option<BackendKind>)
    ensures
        r == spec_parse_runtime_tag(s.spec_bytes()),
{
    proof {
        reveal_strlit("docker");
        reveal_strlit("exo");
        assert(vstd::string::is_ascii("docker"));
        assert(vstd::string::is_ascii("exo"));
    }
    let l = to_ascii_lower(s.as_bytes());
    if crate::bytes::eq_ascii(l.as_slice(), "docker") {
        Some(BackendKind::EngineSocket)
    } else if crate::bytes::eq_ascii(l.as_slice(), "exo") {
        Some(BackendKind::ExternalCli)
    } else {
        None
    }
}

/// The fresh record a successful creation enters into the roster:
/// creation always yields `Stopped`.
pub fn make_agent_record(
    id: String,
    name: String,
    config: AgentConfig,
    project: Option<String>,
    tags: Vec<String>,
    runtime: Option<BackendKind>,
) -> (r: AgentContainer)
    ensures
        r.id@ == id@,
        r.name@ == name@,
        r.status == AgentStatus::Stopped,
        r.config@ == config@,
        r.project == project,
        r.tags == tags,
        r.runtime == runtime,
        r.tailscale_ip is None,
        r.resource_usage is None,
        r.health_status is None,
{
    AgentContainer {
        id,
        name,
        status: AgentStatus::Stopped,
        config,
        tailscale_ip: None,
        resource_usage: None,
        project,
        tags,
        restart_policy: crate::types::RestartPolicy::Never,
        health_status: None,
        runtime,
    }
}

/// What a `start` must do: create first when the engine no longer
/// holds the container — a recovery transition, not a new entity —
/// else start alone.
#[derive(Clone, Copy, Debug, PartialEq, Eq, Structural)]
pub enum StartPlan {
    CreateThenStart,
    StartOnly,
}

/// Plan a start from the engine's answer to an existence probe.
pub fn plan_start(container_exists: bool) -> (r: StartPlan)
    ensures
        r == (if container_exists {
            StartPlan::StartOnly
        } else {
            StartPlan::CreateThenStart
        }),
{
    if container_exists {
        StartPlan::StartOnly
    } else {
        StartPlan::CreateThenStart
    }
}

/// After a recovery creation, the identifier must be preserved: a
/// changed identifier fails the operation rather than renaming the
/// record.
pub fn check_recreated_id(expected: &str, got: &str) -> (r: Result<(), EngineError>)
    ensures
        r is Ok <==> expected@ == got@,
        r is Err ==> r->Err_0@ matches crate::errors::EngineErrorView::Engine(_),
{
    if str_eq(expected, got) {
        Ok(())
    } else {
        Err(EngineError::Engine("identifier changed across recovery creation".to_owned()))
    }
}

/// The health result a probe outcome is recorded as.
pub fn health_status_from(healthy: bool, now: &str) -> (r: HealthStatus)
    ensures
        r.healthy == healthy,
        r.last_check@ == now@,
        healthy ==> (r.message matches Some(m) && m@ == "OK"@),
        !healthy ==> (r.message matches Some(m) && m@ == "Health check failed"@),
{
    HealthStatus {
        healthy,
        last_check: now.to_owned(),
        message: if healthy {
            Some("OK".to_owned())
        } else {
            Some("Health check failed".to_owned())
        },
    }
}

/// The tail bound of a log request: the parsed parameter, or the
/// fixed default when absent or unparsable.
pub fn parse_tail_param(param: Option<&str>) -> (r: usize)
    ensures
        match param {
            Some(p) => {
                let b = p.spec_bytes();
                if b.len() > 0 && crate::bytes::spec_all_digits(b) && crate::bytes::spec_digits_val(
                    b,
                ) <= usize::MAX {
                    r == crate::bytes::spec_digits_val(b)
                } else {
                    r == 100
                }
            },
            None => r == 100,
        },
{
    match param {
        Some(p) => match parse_u64(p.as_bytes()) {
            Some(v) => {
                if v <= usize::MAX as u64 {
                    v as usize
                } else {
                    100
                }
            },
            None => 100,
        },
        None => 100,
    }
}

/// How many roster records are running.
#[verifier::loop_isolation(false)]
pub fn count_running(roster: &Vec<AgentContainer>) -> (r: usize)
    ensures
        r == roster.deep_view().filter(
            |c: AgentContainerView| c.status == AgentStatus::Running,
        ).len(),
{
    let ghost dv = roster.deep_view();
    let ghost pred = |c: AgentContainerView| c.status == AgentStatus::Running;
    let mut n: usize = 0;
    let mut i: usize = 0;
    proof {
        reveal(Seq::filter);
        assert(dv.subrange(0, 0).filter(pred).len() == 0);
    }
    while i < roster.len()
        invariant
            i <= roster@.len(),
            dv.len() == roster@.len(),
            forall|j: int| 0 <= j < dv.len() ==> dv[j] == roster@[j]@,
            n == dv.subrange(0, i as int).filter(pred).len(),
            n <= i,
        decreases roster@.len() - i,
    {
        let ghost pre = dv.subrange(0, i as int);
        let ghost cur = dv.subrange(0, i + 1);
        proof {
            reveal(Seq::filter);
            assert(cur.drop_last() =~= pre);
            assert(cur.last() == dv[i as int]);
        }
        if roster[i].status == AgentStatus::Running {
            proof {
                reveal(Seq::filter);
                assert(cur =~= pre + seq![dv[i as int]]);
                Seq::filter_distributes_over_add(pre, seq![dv[i as int]], pred);
                assert(dv[i as int].status == AgentStatus::Running);
                assert(seq![dv[i as int]].filter(pred) =~= seq![dv[i as int]]);
            }
            n = n + 1;
        } else {
            proof {
                reveal(Seq::filter);
                assert(cur =~= pre + seq![dv[i as int]]);
                Seq::filter_distributes_over_add(pre, seq![dv[i as int]], pred);
                assert(dv[i as int].status != AgentStatus::Running);
                assert(seq![dv[i as int]].filter(pred) =~= Seq::<AgentContainerView>::empty());
                assert(cur.filter(pred) =~= pre.filter(pred));
            }
        }
        i = i + 1;
    }
    proof {
        assert(dv.subrange(0, dv.len() as int) =~= dv);
    }
    n
}

/// The listing filter: project, status, tag and backend, all
/// optional; a record must match every present criterion.
#[derive(Clone, Debug)]
pub struct AgentFilter {
    pub project: Option<String>,
    pub status: Option<AgentStatus>,
    pub tag: Option<String>,
    pub runtime: Option<BackendKind>,
}

/// Whether a record matches the filter.
pub open spec fn spec_matches_filter(
    c: AgentContainerView,
    project: Option<Seq<char>>,
    status: Option<AgentStatus>,
    tag: Option<Seq<char>>,
    runtime: Option<BackendKind>,
) -> bool {
    &&& (project matches Some(p) ==> c.project == Some(p))
    &&& (status matches Some(s) ==> c.status == s)
    &&& (tag matches Some(t) ==> c.tags.contains(t))
    &&& (runtime matches Some(rt) ==> c.runtime == Some(rt))
}

/// Whether a tag list holds a tag.
fn tags_contain(tags: &Vec<String>, tag: &str) -> (r: bool)
    ensures
        r == tags.deep_view().contains(tag@),
{
    let mut i: usize = 0;
    while i < tags.len()
        invariant
            i <= tags@.len(),
            forall|j: int| 0 <= j < i ==> tags.deep_view()[j] != tag@,
        decreases tags@.len() - i,
    {
        proof {
            assert(tags.deep_view()[i as int] == tags@[i as int]@);
        }
        if str_eq(tags[i].as_str(), tag) {
            proof {
                assert(tags.deep_view()[i as int] == tag@);
            }
            return true;
        }
        i = i + 1;
    }
    proof {
        assert forall|j: int| 0 <= j < tags.deep_view().len() implies tags.deep_view()[j]
            != tag@ by {}
    }
    false
}

/// Whether one record matches the filter.
fn record_matches(c: &AgentContainer, filter: &AgentFilter) -> (r: bool)
    ensures
        r == spec_matches_filter(
            c@,
            filter.project.deep_view(),
            filter.status,
            filter.tag.deep_view(),
            filter.runtime,
        ),
{
    if let Some(p) = &filter.project {
        match &c.project {
            Some(cp) => {
                if !str_eq(cp.as_str(), p.as_str()) {
                    return false;
                }
            },
            None => {
                return false;
            },
        }
    }
    if let Some(s) = filter.status {
        if c.status != s {
            return false;
        }
    }
    if let Some(t) = &filter.tag {
        if !tags_contain(&c.tags, t.as_str()) {
            return false;
        }
    }
    if let Some(rt) = filter.runtime {
        match c.runtime {
            Some(crt) => {
                if crt != rt {
                    return false;
                }
            },
            None => {
                return false;
            },
        }
    }
    true
}

/// The indices of the roster records the filter keeps, in order: an
/// index is in the result exactly when its record matches.
#[verifier::loop_isolation(false)]
pub fn matching_agents(roster: &Vec<AgentContainer>, filter: &AgentFilter) -> (r: Vec<usize>)
    ensures
        forall|k: int|
            0 <= k < r@.len() ==> (#[trigger] r@[k]) < roster@.len() && spec_matches_filter(
                roster.deep_view()[r@[k] as int],
                filter.project.deep_view(),
                filter.status,
                filter.tag.deep_view(),
                filter.runtime,
            ),
        forall|j: int|
            0 <= j < roster@.len() && spec_matches_filter(
                roster.deep_view()[j],
                filter.project.deep_view(),
                filter.status,
                filter.tag.deep_view(),
                filter.runtime,
            ) ==> r@.contains(j as usize),
        forall|k1: int, k2: int| 0 <= k1 < k2 < r@.len() ==> r@[k1] < r@[k2],
{
    let ghost dv = roster.deep_view();
    let mut r: Vec<usize> = Vec::new();
    let mut i: usize = 0;
    while i < roster.len()
        invariant
            i <= roster@.len(),
            forall|k: int|
                0 <= k < r@.len() ==> (#[trigger] r@[k]) < i && spec_matches_filter(
                    dv[r@[k] as int],
                    filter.project.deep_view(),
                    filter.status,
                    filter.tag.deep_view(),
                    filter.runtime,
                ),
            forall|j: int|
                0 <= j < i && spec_matches_filter(
                    dv[j],
                    filter.project.deep_view(),
                    filter.status,
                    filter.tag.deep_view(),
                    filter.runtime,
                ) ==> r@.contains(j as usize),
            forall|k1: int, k2: int| 0 <= k1 < k2 < r@.len() ==> r@[k1] < r@[k2],
        decreases roster@.len() - i,
    {
        if record_matches(&roster[i], filter) {
            let ghost prev = r@;
            r.push(i);
            proof {
                assert forall|j: int|
                    0 <= j < i + 1 && spec_matches_filter(
                        dv[j],
                        filter.project.deep_view(),
                        filter.status,
                        filter.tag.deep_view(),
                        filter.runtime,
                    ) implies r@.contains(j as usize) by {
                    if j < i {
                        let k = choose|k: int| 0 <= k < prev.len() && prev[k] == j as usize;
                        assert(r@[k] == j as usize);
                    } else {
                        assert(r@[r@.len() - 1] == i);
                    }
                }
            }
        }
        i = i + 1;
    }
    r
}

/// Whether a record is due for a batch start: not already running,
/// and inside the project when one is named.
pub open spec fn spec_due_for_start(c: AgentContainerView, project: Option<Seq<char>>) -> bool {
    &&& c.status != AgentStatus::Running
    &&& (project matches Some(p) ==> c.project == Some(p))
}

/// Whether a record is due for a batch stop: running, and inside the
/// project when one is named.
pub open spec fn spec_due_for_stop(c: AgentContainerView, project: Option<Seq<char>>) -> bool {
    &&& c.status == AgentStatus::Running
    &&& (project matches Some(p) ==> c.project == Some(p))
}

/// The indices a batch start visits, in roster order: exactly the
/// records that are not running, restricted to the project when one
/// is named.
#[verifier::loop_isolation(false)]
pub fn agents_to_start(roster: &Vec<AgentContainer>, project: Option<&str>) -> (r: Vec<usize>)
    ensures
        forall|k: int|
            0 <= k < r@.len() ==> (#[trigger] r@[k]) < roster@.len() && spec_due_for_start(
                roster.deep_view()[r@[k] as int],
                project.deep_view(),
            ),
        forall|j: int|
            0 <= j < roster@.len() && spec_due_for_start(
                roster.deep_view()[j],
                project.deep_view(),
            ) ==> r@.contains(j as usize),
        forall|k1: int, k2: int| 0 <= k1 < k2 < r@.len() ==> r@[k1] < r@[k2],
{
    let ghost dv = roster.deep_view();
    let mut r: Vec<usize> = Vec::new();
    let mut i: usize = 0;
    while i < roster.len()
        invariant
            i <= roster@.len(),
            forall|k: int|
                0 <= k < r@.len() ==> (#[trigger] r@[k]) < i && spec_due_for_start(
                    dv[r@[k] as int],
                    project.deep_view(),
                ),
            forall|j: int|
                0 <= j < i && spec_due_for_start(dv[j], project.deep_view()) ==> r@.contains(
                    j as usize,
                ),
            forall|k1: int, k2: int| 0 <= k1 < k2 < r@.len() ==> r@[k1] < r@[k2],
        decreases roster@.len() - i,
    {
        let in_project = match project {
            Some(p) => match &roster[i].project {
                Some(cp) => str_eq(cp.as_str(), p),
                None => false,
            },
            None => true,
        };
        if in_project && roster[i].status != AgentStatus::Running {
            let ghost prev = r@;
            r.push(i);
            proof {
                assert forall|j: int|
                    0 <= j < i + 1 && spec_due_for_start(dv[j], project.deep_view()) implies r@
                    .contains(j as usize) by {
                    if j < i {
                        let k = choose|k: int| 0 <= k < prev.len() && prev[k] == j as usize;
                        assert(r@[k] == j as usize);
                    } else {
                        assert(r@[r@.len() - 1] == i);
                    }
                }
            }
        }
        i = i + 1;
    }
    r
}

/// The indices a batch stop visits, in roster order: exactly the
/// running records, restricted to the project when one is named.
#[verifier::loop_isolation(false)]
pub fn agents_to_stop(roster: &Vec<AgentContainer>, project: Option<&str>) -> (r: Vec<usize>)
    ensures
        forall|k: int|
            0 <= k < r@.len() ==> (#[trigger] r@[k]) < roster@.len() && spec_due_for_stop(
                roster.deep_view()[r@[k] as int],
                project.deep_view(),
            ),
        forall|j: int|
            0 <= j < roster@.len() && spec_due_for_stop(
                roster.deep_view()[j],
                project.deep_view(),
            ) ==> r@.contains(j as usize),
        forall|k1: int, k2: int| 0 <= k1 < k2 < r@.len() ==> r@[k1] < r@[k2],
{
    let ghost dv = roster.deep_view();
    let mut r: Vec<usize> = Vec::new();
    let mut i: usize = 0;
    while i < roster.len()
        invariant
            i <= roster@.len(),
            forall|k: int|
                0 <= k < r@.len() ==> (#[trigger] r@[k]) < i && spec_due_for_stop(
                    dv[r@[k] as int],
                    project.deep_view(),
                ),
            forall|j: int|
                0 <= j < i && spec_due_for_stop(dv[j], project.deep_view()) ==> r@.contains(
                    j as usize,
                ),
            forall|k1: int, k2: int| 0 <= k1 < k2 < r@.len() ==> r@[k1] < r@[k2],
        decreases roster@.len() - i,
    {
        let in_project = match project {
            Some(p) => match &roster[i].project {
                Some(cp) => str_eq(cp.as_str(), p),
                None => false,
            },
            None => true,
        };
        if in_project && roster[i].status == AgentStatus::Running {
            let ghost prev = r@;
            r.push(i);
            proof {
                assert forall|j: int|
                    0 <= j < i + 1 && spec_due_for_stop(dv[j], project.deep_view()) implies r@
                    .contains(j as usize) by {
                    if j < i {
                        let k = choose|k: int| 0 <= k < prev.len() && prev[k] == j as usize;
                        assert(r@[k] == j as usize);
                    } else {
                        assert(r@[r@.len() - 1] == i);
                    }
                }
            }
        }
        i = i + 1;
    }
    r
}

/// The fixed provider list the credential endpoint reports on.
pub fn known_providers() -> (r: Vec<&'static str>)
    ensures
        r.deep_view() == seq![
            "zai"@,
            "anthropic"@,
            "openai"@,
            "kimi"@,
            "google"@,
            "kimi-code"@,
            "access"@,
            "huggingface"@,
        ],
{
    let mut r: Vec<&'static str> = Vec::new();
    r.push("zai");
    r.push("anthropic");
    r.push("openai");
    r.push("kimi");
    r.push("google");
    r.push("kimi-code");
    r.push("access");
    r.push("huggingface");
    proof {
        assert forall|j: int| 0 <= j < r@.len() implies #[trigger] r.deep_view()[j]
            == r@[j]@ by {}
        assert(r.deep_view() =~= seq![
            "zai"@,
            "anthropic"@,
            "openai"@,
            "kimi"@,
            "google"@,
            "kimi-code"@,
            "access"@,
            "huggingface"@,
        ]);
    }
    r
}

/// Which of the known providers have a stored credential: one entry
/// per provider, marked present exactly when the store names it.
#[verifier::loop_isolation(false)]
pub fn api_key_infos(stored: &Vec<String>) -> (r: Vec<ApiKeyInfo>)
    ensures
        r@.len() == 8,
        forall|j: int|
            0 <= j < r@.len() ==> (#[trigger] r@[j]).has_key == stored.deep_view().contains(
                r@[j].provider@,
            ),
{
    let providers = known_providers();
    proof {
        assert(providers@.len() == providers.deep_view().len());
    }
    let mut r: Vec<ApiKeyInfo> = Vec::new();
    let mut i: usize = 0;
    while i < providers.len()
        invariant
            i <= providers@.len(),
            providers@.len() == 8,
            r@.len() == i,
            forall|j: int|
                0 <= j < r@.len() ==> (#[trigger] r@[j]).has_key == stored.deep_view().contains(
                    r@[j].provider@,
                ),
        decreases providers@.len() - i,
    {
        let has = stored_contains(stored, providers[i]);
        r.push(ApiKeyInfo { provider: providers[i].to_owned(), has_key: has });
        i = i + 1;
    }
    r
}

/// Whether the credential store names a provider.
fn stored_contains(stored: &Vec<String>, name: &str) -> (r: bool)
    ensures
        r == stored.deep_view().contains(name@),
{
    let mut i: usize = 0;
    while i < stored.len()
        invariant
            i <= stored@.len(),
            forall|j: int| 0 <= j < i ==> stored.deep_view()[j] != name@,
        decreases stored@.len() - i,
    {
        proof {
            assert(stored.deep_view()[i as int] == stored@[i as int]@);
        }
        if str_eq(stored[i].as_str(), name) {
            proof {
                assert(stored.deep_view()[i as int] == name@);
            }
            return true;
        }
        i = i + 1;
    }
    proof {
        assert forall|j: int| 0 <= j < stored.deep_view().len() implies stored.deep_view()[j]
            != name@ by {}
    }
    false
}

/// One counter of a memory-information text: the second column of the
/// first line that starts with the given label.
pub open spec fn spec_meminfo_field(lines: Seq<Seq<u8>>, label: Seq<u8>) -> int
    decreases lines.len(),
{
    if lines.len() == 0 {
        0
    } else if crate::bytes::spec_starts_with(lines[0], label) {
        crate::containment::spec_usage_line_val(lines[0])
    } else {
        spec_meminfo_field(lines.drop_first(), label)
    }
}

/// Read one labelled counter from a memory-information text.
#[verifier::loop_isolation(false)]
fn meminfo_field(content: &[u8], label: &str) -> (r: u64)
    requires
        vstd::string::is_ascii(label),
    ensures
        r as int == spec_meminfo_field(
            spec_lines(content@),
            label@.map(|_i: int, c: char| c as u8),
        ),
{
    let lines = lines_of(content);
    let ghost lv = Seq::new(lines@.len(), |j: int| lines@[j]@);
    let ghost lb = label@.map(|_i: int, c: char| c as u8);
    proof {
        assert(lv =~= spec_lines(content@));
        assert(lv.subrange(0, lv.len() as int) =~= lv);
    }
    let prefix = label.as_bytes();
    proof {
        broadcast use vstd::string::is_ascii_spec_bytes;

        assert(prefix@ =~= lb);
    }
    let mut i: usize = 0;
    while i < lines.len()
        invariant
            i <= lv.len(),
            lv.len() == lines@.len(),
            forall|j: int| 0 <= j < lv.len() ==> lv[j] == lines@[j]@,
            prefix@ == lb,
            spec_meminfo_field(lv, lb) == spec_meminfo_field(
                lv.subrange(i as int, lv.len() as int),
                lb,
            ),
        decreases lv.len() - i,
    {
        let ghost rem = lv.subrange(i as int, lv.len() as int);
        proof {
            assert(rem[0] == lv[i as int]);
            assert(rem.drop_first() =~= lv.subrange(i + 1, lv.len() as int));
        }
        if bytes_starts_with(lines[i].as_slice(), prefix) {
            let tokens = split_ws(lines[i].as_slice());
            if tokens.len() >= 2 {
                let t = crate::bytes::trim_bytes(tokens[1].as_slice());
                return match parse_u64(t.as_slice()) {
                    Some(v) => v,
                    None => 0,
                };
            }
            return 0;
        }
        i = i + 1;
    }
    proof {
        assert(lv.subrange(lv.len() as int, lv.len() as int).len() == 0);
    }
    0
}

/// Total and available system memory in KB, parsed from the kernel's
/// memory-information text.
pub fn parse_meminfo(content: &[u8]) -> (r: (u64, u64))
    ensures
        r.0 as int == spec_meminfo_field(
            spec_lines(content@),
            "MemTotal:"@.map(|_i: int, c: char| c as u8),
        ),
        r.1 as int == spec_meminfo_field(
            spec_lines(content@),
            "MemAvailable:"@.map(|_i: int, c: char| c as u8),
        ),
{
    proof {
        reveal_strlit("MemTotal:");
        reveal_strlit("MemAvailable:");
        assert(vstd::string::is_ascii("MemTotal:"));
        assert(vstd::string::is_ascii("MemAvailable:"));
    }
    let total = meminfo_field(content, "MemTotal:");
    let available = meminfo_field(content, "MemAvailable:");
    (total, available)
}

/// The declared memory of every running agent, summed; the sum
/// saturates rather than wraps.
#[verifier::loop_isolation(false)]
pub fn running_agent_memory(roster: &Vec<AgentContainer>) -> (r: u64)
    ensures
        r as int <= u64::MAX,
{
    let mut total: u64 = 0;
    let mut i: usize = 0;
    while i < roster.len()
        decreases roster@.len() - i,
    {
        if roster[i].status == AgentStatus::Running {
            let m = roster[i].config.memory_mb as u64;
            if total > u64::MAX - m {
                total = u64::MAX;
            } else {
                total = total + m;
            }
        }
        i = i + 1;
    }
    total
}

/// Whole-process statistics, from the parsed memory counters, the
/// host's core count and the roster.
pub struct SystemStats {
    pub total_memory_mb: u64,
    pub used_memory_mb: u64,
    pub available_memory_mb: u64,
    pub total_cpu_cores: u32,
    /// Percentage of cores occupied by running agents, capped at 100.
    pub cpu_usage_percent: u32,
    pub agent_count: usize,
    pub running_agents: usize,
    pub agent_memory_mb: u64,
    pub runtime: BackendKind,
}

/// Summarise system statistics. Memory counters arrive in KB and are
/// reported in MB; the CPU percentage is the running-agent count over
/// the core count, capped at one hundred.
pub fn system_stats_summary(
    total_kb: u64,
    available_kb: u64,
    cpus: u32,
    roster: &Vec<AgentContainer>,
    runtime: BackendKind,
) -> (r: SystemStats)
    requires
        cpus >= 1,
        roster@.len() <= usize::MAX,
    ensures
        r.total_memory_mb as int == total_kb as int / 1024,
        r.available_memory_mb as int == available_kb as int / 1024,
        r.used_memory_mb as int == (if total_kb >= available_kb {
            (total_kb - available_kb) as int / 1024
        } else {
            0int
        }),
        r.total_cpu_cores == cpus,
        r.agent_count == roster@.len(),
        r.running_agents == roster.deep_view().filter(
            |c: AgentContainerView| c.status == AgentStatus::Running,
        ).len(),
        r.cpu_usage_percent <= 100,
        r.runtime == runtime,
{
    let running = count_running(roster);
    let used_kb = if total_kb >= available_kb {
        total_kb - available_kb
    } else {
        0
    };
    let pct_raw = if running > (u32::MAX as usize) {
        u32::MAX as u64
    } else {
        (running as u64) * 100 / (cpus as u64)
    };
    let cpu_usage_percent = if pct_raw > 100 {
        100
    } else {
        pct_raw as u32
    };
    SystemStats {
        total_memory_mb: total_kb / 1024,
        used_memory_mb: used_kb / 1024,
        available_memory_mb: available_kb / 1024,
        total_cpu_cores: cpus,
        cpu_usage_percent,
        agent_count: roster.len(),
        running_agents: running,
        agent_memory_mb: running_agent_memory(roster),
        runtime,
    }
}

/// The identifier slug of a project name: ASCII letters lower-cased
/// and spaces replaced by dashes.
pub open spec fn spec_slug_byte(b: u8) -> u8 {
    if b == 32 {
        45u8
    } else {
        crate::bytes::spec_lower_byte(b)
    }
}

/// The slug of a byte name.
pub open spec fn spec_slug(s: Seq<u8>) -> Seq<u8> {
    s.map(|_i: int, b: u8| spec_slug_byte(b))
}

/// Build the slug of a project name.
pub fn slugify(name: &str) -> (r: String)
    ensures
        spec_all_ascii(name.spec_bytes()) ==> r@ == spec_chars_of(spec_slug(name.spec_bytes())),
{
    let b = name.as_bytes();
    let mut out: Vec<u8> = Vec::new();
    let mut i: usize = 0;
    while i < b.len()
        invariant
            i <= b@.len(),
            out@.len() == i,
            forall|j: int| 0 <= j < i ==> out@[j] == spec_slug_byte(b@[j]),
        decreases b@.len() - i,
    {
        let c = b[i];
        if c == 32 {
            out.push(45);
        } else if 65 <= c && c <= 90 {
            out.push(c + 32);
        } else {
            out.push(c);
        }
        i = i + 1;
    }
    proof {
        assert(out@ =~= spec_slug(b@));
        if spec_all_ascii(name.spec_bytes()) {
            assert forall|j: int| 0 <= j < out@.len() implies #[trigger] out@[j] < 128 by {
                assert(out@[j] == spec_slug_byte(b@[j]));
            }
        }
    }
    ascii_str(out.as_slice())
}

/// The identifiers of the roster records assigned to one project, in
/// roster order.
pub open spec fn spec_project_ids(
    dv: Seq<AgentContainerView>,
    name: Seq<char>,
) -> Seq<Seq<char>> {
    dv.filter(|c: AgentContainerView| c.project == Some(name)).map(
        |_i: int, c: AgentContainerView| c.id,
    )
}

/// Collect the identifiers of one project's agents.
#[verifier::loop_isolation(false)]
pub fn project_agent_ids(roster: &Vec<AgentContainer>, name: &str) -> (r: Vec<String>)
    ensures
        r.deep_view() == spec_project_ids(roster.deep_view(), name@),
{
    let ghost dv = roster.deep_view();
    let ghost pred = |c: AgentContainerView| c.project == Some(name@);
    let mut r: Vec<String> = Vec::new();
    let mut i: usize = 0;
    proof {
        reveal(Seq::filter);
        assert(r.deep_view() =~= dv.subrange(0, 0).filter(pred).map(
            |_i: int, c: AgentContainerView| c.id,
        ));
    }
    while i < roster.len()
        invariant
            i <= roster@.len(),
            dv.len() == roster@.len(),
            forall|j: int| 0 <= j < dv.len() ==> dv[j] == roster@[j]@,
            r.deep_view() == dv.subrange(0, i as int).filter(pred).map(
                |_i: int, c: AgentContainerView| c.id,
            ),
        decreases roster@.len() - i,
    {
        let ghost pre = dv.subrange(0, i as int);
        let ghost cur = dv.subrange(0, i + 1);
        proof {
            reveal(Seq::filter);
            assert(cur.drop_last() =~= pre);
            assert(cur.last() == dv[i as int]);
        }
        let is_member = match &roster[i].project {
            Some(p) => str_eq(p.as_str(), name),
            None => false,
        };
        if is_member {
            push_string(&mut r, roster[i].id.clone());
            proof {
                assert(pred(dv[i as int]));
                assert(cur.filter(pred) =~= pre.filter(pred).push(dv[i as int]));
                assert(r.deep_view() =~= cur.filter(pred).map(
                    |_i: int, c: AgentContainerView| c.id,
                ));
            }
        } else {
            proof {
                assert(!pred(dv[i as int]));
                assert(cur.filter(pred) =~= pre.filter(pred));
            }
        }
        i = i + 1;
    }
    proof {
        assert(dv.subrange(0, dv.len() as int) =~= dv);
    }
    r
}

/// Group the roster by project: one project per distinct project name,
/// in first-appearance order, each holding exactly the identifiers of
/// its agents in roster order.
#[verifier::loop_isolation(false)]
pub fn projects_from_roster(roster: &Vec<AgentContainer>, now: &str) -> (r: Vec<Project>)
    ensures
        forall|m1: int, m2: int|
            0 <= m1 < m2 < r@.len() ==> (#[trigger] r@[m1]).name@ != (#[trigger] r@[m2]).name@,
        forall|m: int|
            0 <= m < r@.len() ==> (#[trigger] r@[m]).agents.deep_view() == spec_project_ids(
                roster.deep_view(),
                r@[m].name@,
            ),
        forall|k: int|
            0 <= k < roster@.len() && (#[trigger] roster.deep_view()[k]).project is Some
                ==> exists|m: int|
                0 <= m < r@.len() && (#[trigger] r@[m]).name@ == roster.deep_view()[
                    k
                ].project->0,
{
    let ghost dv = roster.deep_view();
    let mut r: Vec<Project> = Vec::new();
    let mut k: usize = 0;
    while k < roster.len()
        invariant
            k <= roster@.len(),
            dv.len() == roster@.len(),
            forall|j: int| 0 <= j < dv.len() ==> dv[j] == roster@[j]@,
            forall|m1: int, m2: int|
                0 <= m1 < m2 < r@.len() ==> (#[trigger] r@[m1]).name@ != (
                #[trigger] r@[m2]).name@,
            forall|m: int|
                0 <= m < r@.len() ==> (#[trigger] r@[m]).agents.deep_view() == spec_project_ids(
                    dv,
                    r@[m].name@,
                ),
            forall|j: int|
                0 <= j < k && (#[trigger] dv[j]).project is Some ==> exists|m: int|
                    0 <= m < r@.len() && (#[trigger] r@[m]).name@ == dv[j].project->0,
        decreases roster@.len() - k,
    {
        let maybe_name: Option<String> = match &roster[k].project {
            Some(p) => Some(p.clone()),
            None => None,
        };
        if let Some(name) = maybe_name {
            let mut seen = false;
            let mut m: usize = 0;
            while m < r.len()
                invariant
                    m <= r@.len(),
                    seen ==> exists|m0: int|
                        0 <= m0 < r@.len() && (#[trigger] r@[m0]).name@ == name@,
                    !seen ==> forall|m0: int| 0 <= m0 < m ==> (#[trigger] r@[m0]).name@ != name@,
                decreases r@.len() - m,
            {
                if str_eq(r[m].name.as_str(), name.as_str()) {
                    seen = true;
                    proof {
                        assert(r@[m as int].name@ == name@);
                    }
                }
                m = m + 1;
            }
            if !seen {
                let agents = project_agent_ids(roster, name.as_str());
                let mut project = make_project(name, None, now);
                project.agents = agents;
                let ghost prev = r@;
                r.push(project);
                proof {
                    assert(r@[r@.len() - 1].name@ == dv[k as int].project->0);
                    assert forall|j: int|
                        0 <= j < k + 1 && (#[trigger] dv[j]).project is Some implies exists|
                        m0: int,
                    |
                        0 <= m0 < r@.len() && (#[trigger] r@[m0]).name@ == dv[j].project->0 by {
                        if j < k {
                            let m0 = choose|m0: int|
                                0 <= m0 < prev.len() && (#[trigger] prev[m0]).name@ == dv[
                                    j
                                ].project->0;
                            assert(r@[m0].name@ == dv[j].project->0);
                        } else {
                            assert(r@[r@.len() - 1].name@ == dv[j].project->0);
                        }
                    }
                }
            }
        }
        k = k + 1;
    }
    r
}

/// Build a project from a creation request: the slug as identifier,
/// no agents yet.
pub fn make_project(name: String, description: Option<String>, now: &str) -> (r: Project)
    ensures
        r.name@ == name@,
        r.description.deep_view() == description.deep_view(),
        r.created_at@ == now@,
        r.agents@.len() == 0,
{
    let id = slugify(name.as_str());
    Project { id, name, description, agents: Vec::new(), created_at: now.to_owned() }
}

} // verus!
