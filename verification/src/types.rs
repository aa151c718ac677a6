//! Core data model: agent specifications, records, statuses and the
//! mathematical views the contracts are stated over.

use vstd::prelude::*;

verus! {

/// Lifecycle state of an agent container.
///
/// The machine is `Stopped -> Starting -> Running -> Stopping -> Stopped`,
/// with `Error` reachable from any state on an unrecoverable backend
/// failure. Creation always yields `Stopped`.
#[derive(Clone, Copy, Debug, PartialEq, Eq, Structural)]
pub enum AgentStatus {
    Running,
    Stopped,
    Starting,
    Stopping,
    Error,
}

/// Restart policy of an agent.
#[derive(Clone, Copy, Debug, PartialEq, Eq, Structural)]
pub enum RestartPolicy {
    Never,
    Always,
    OnFailure,
    UnlessStopped,
}

impl Default for RestartPolicy {
    /// The default policy is `Never`.
    fn default() -> (r: Self)
        ensures
            r == RestartPolicy::Never,
    {
        RestartPolicy::Never
    }
}

/// The LLM provider an agent talks to.
#[derive(Clone, Debug, PartialEq)]
pub enum LlmProvider {
    OpenAI,
    Anthropic,
    Gemini,
    Kimi,
    Zai,
    Huggingface,
    Ollama,
    LlamaCpp,
    Vllm,
    Lmstudio,
    KimiCode,
    Access,
    Custom { endpoint: String },
}

/// Spec-level value of a provider, with the custom endpoint as a
/// character sequence.
pub ghost enum ProviderView {
    OpenAI,
    Anthropic,
    Gemini,
    Kimi,
    Zai,
    Huggingface,
    Ollama,
    LlamaCpp,
    Vllm,
    Lmstudio,
    KimiCode,
    Access,
    Custom { endpoint: Seq<char> },
}

impl View for LlmProvider {
    type V = ProviderView;

    open spec fn view(&self) -> ProviderView {
        match self {
            LlmProvider::OpenAI => ProviderView::OpenAI,
            LlmProvider::Anthropic => ProviderView::Anthropic,
            LlmProvider::Gemini => ProviderView::Gemini,
            LlmProvider::Kimi => ProviderView::Kimi,
            LlmProvider::Zai => ProviderView::Zai,
            LlmProvider::Huggingface => ProviderView::Huggingface,
            LlmProvider::Ollama => ProviderView::Ollama,
            LlmProvider::LlamaCpp => ProviderView::LlamaCpp,
            LlmProvider::Vllm => ProviderView::Vllm,
            LlmProvider::Lmstudio => ProviderView::Lmstudio,
            LlmProvider::KimiCode => ProviderView::KimiCode,
            LlmProvider::Access => ProviderView::Access,
            LlmProvider::Custom { endpoint } => ProviderView::Custom { endpoint: endpoint@ },
        }
    }
}

impl LlmProvider {
    /// Whether the provider runs on the local host rather than a cloud API.
    pub fn is_local(&self) -> (r: bool)
        ensures
            r == (self@ matches ProviderView::Ollama || self@ matches ProviderView::LlamaCpp
                || self@ matches ProviderView::Vllm || self@ matches ProviderView::Lmstudio),
    {
        matches!(
            self,
            LlmProvider::Ollama | LlmProvider::LlamaCpp | LlmProvider::Vllm | LlmProvider::Lmstudio
        )
    }

    /// Human-readable provider name for display surfaces.
    pub fn display_name(&self) -> (r: &'static str)
        ensures
            self@ matches ProviderView::OpenAI ==> r@ == "OpenAI"@,
            self@ matches ProviderView::Anthropic ==> r@ == "Anthropic"@,
            self@ matches ProviderView::Ollama ==> r@ == "Ollama (Local)"@,
    {
        match self {
            LlmProvider::OpenAI => "OpenAI",
            LlmProvider::Anthropic => "Anthropic",
            LlmProvider::Gemini => "Gemini",
            LlmProvider::Kimi => "Kimi (Moonshot)",
            LlmProvider::Zai => "Zhipu AI (GLM)",
            LlmProvider::Huggingface => "Hugging Face",
            LlmProvider::Ollama => "Ollama (Local)",
            LlmProvider::LlamaCpp => "llama.cpp (Local)",
            LlmProvider::Vllm => "vLLM (Local)",
            LlmProvider::Lmstudio => "LM Studio (Local)",
            LlmProvider::KimiCode => "Kimi Code",
            LlmProvider::Access => "Access",
            LlmProvider::Custom { .. } => "Custom",
        }
    }

    /// A copy of this provider value, equal at the spec level.
    pub fn clone_provider(&self) -> (r: Self)
        ensures
            r@ == self@,
    {
        match self {
            LlmProvider::OpenAI => LlmProvider::OpenAI,
            LlmProvider::Anthropic => LlmProvider::Anthropic,
            LlmProvider::Gemini => LlmProvider::Gemini,
            LlmProvider::Kimi => LlmProvider::Kimi,
            LlmProvider::Zai => LlmProvider::Zai,
            LlmProvider::Huggingface => LlmProvider::Huggingface,
            LlmProvider::Ollama => LlmProvider::Ollama,
            LlmProvider::LlamaCpp => LlmProvider::LlamaCpp,
            LlmProvider::Vllm => LlmProvider::Vllm,
            LlmProvider::Lmstudio => LlmProvider::Lmstudio,
            LlmProvider::KimiCode => LlmProvider::KimiCode,
            LlmProvider::Access => LlmProvider::Access,
            LlmProvider::Custom { endpoint } => LlmProvider::Custom {
                endpoint: endpoint.clone(),
            },
        }
    }
}

/// The backend that owns a container: the engine-socket daemon, the
/// isolation-runtime CLI, or the external third-party CLI.
#[derive(Clone, Copy, Debug, PartialEq, Eq, Structural)]
pub enum BackendKind {
    EngineSocket,
    IsolationCli,
    ExternalCli,
}

/// Named resource tier, overriding individually declared memory and CPU.
#[derive(Clone, Copy, Debug, PartialEq, Eq, Structural)]
pub enum ResourcePreset {
    Nano,
    Micro,
    Small,
    Medium,
    Large,
    Xlarge,
}

impl ResourcePreset {
    /// The (memory MB, CPU millicores) pair a preset stands for.
    pub fn resources(&self) -> (r: (u32, u32))
        ensures
            r == self.spec_resources(),
    {
        match self {
            ResourcePreset::Nano => (512, 500),
            ResourcePreset::Micro => (1024, 1000),
            ResourcePreset::Small => (2048, 2000),
            ResourcePreset::Medium => (4096, 4000),
            ResourcePreset::Large => (8192, 8000),
            ResourcePreset::Xlarge => (16384, 16000),
        }
    }

    pub open spec fn spec_resources(&self) -> (u32, u32) {
        match self {
            ResourcePreset::Nano => (512u32, 500u32),
            ResourcePreset::Micro => (1024u32, 1000u32),
            ResourcePreset::Small => (2048u32, 2000u32),
            ResourcePreset::Medium => (4096u32, 4000u32),
            ResourcePreset::Large => (8192u32, 8000u32),
            ResourcePreset::Xlarge => (16384u32, 16000u32),
        }
    }
}

/// Health-check configuration: how often to probe, how long to wait,
/// how many failures before the agent is marked unhealthy.
#[derive(Clone, Debug)]
pub struct HealthCheck {
    /// Interval in seconds.
    pub interval: u32,
    /// Timeout in seconds.
    pub timeout: u32,
    /// Retries before marking unhealthy.
    pub retries: u32,
    /// Command to run inside the container, if any.
    pub command: Option<Vec<String>>,
}

impl Default for HealthCheck {
    /// Probe every 30 s, wait 10 s, three retries, no custom command.
    fn default() -> (r: Self)
        ensures
            r.interval == 30,
            r.timeout == 10,
            r.retries == 3,
            r.command is None,
    {
        HealthCheck { interval: 30, timeout: 10, retries: 3, command: None }
    }
}

/// Result of the last health check.
#[derive(Clone, Debug)]
pub struct HealthStatus {
    pub healthy: bool,
    pub last_check: String,
    pub message: Option<String>,
}

/// A volume mount: host source, container target, read-only flag.
#[derive(Clone, Debug)]
pub struct VolumeMount {
    pub source: String,
    pub target: String,
    pub read_only: bool,
}

impl VolumeMount {
    /// A copy of this mount, equal at the view level.
    pub fn clone_mount(&self) -> (r: Self)
        ensures
            r.source@ == self.source@,
            r.target@ == self.target@,
            r.read_only == self.read_only,
    {
        VolumeMount {
            source: self.source.clone(),
            target: self.target.clone(),
            read_only: self.read_only,
        }
    }
}

/// Point-in-time resource snapshot of a running container. Never persisted.
#[derive(Clone, Copy, Debug)]
pub struct ResourceUsage {
    pub memory_mb: u64,
    pub cpu_percent: u32,
    pub network_rx_bytes: u64,
    pub network_tx_bytes: u64,
}

/// One log record produced by a backend.
#[derive(Clone, Debug)]
pub struct LogEntry {
    pub timestamp: String,
    pub level: String,
    pub message: String,
}

/// Spec-level value of a log record.
pub ghost struct LogEntryView {
    pub timestamp: Seq<char>,
    pub level: Seq<char>,
    pub message: Seq<char>,
}

impl View for LogEntry {
    type V = LogEntryView;

    open spec fn view(&self) -> LogEntryView {
        LogEntryView {
            timestamp: self.timestamp@,
            level: self.level@,
            message: self.message@,
        }
    }
}

impl DeepView for LogEntry {
    type V = LogEntryView;

    open spec fn deep_view(&self) -> LogEntryView {
        self.view()
    }
}

/// Spec-level value of a volume mount.
pub ghost struct VolumeMountView {
    pub source: Seq<char>,
    pub target: Seq<char>,
    pub read_only: bool,
}

impl View for VolumeMount {
    type V = VolumeMountView;

    open spec fn view(&self) -> VolumeMountView {
        VolumeMountView { source: self.source@, target: self.target@, read_only: self.read_only }
    }
}

impl DeepView for VolumeMount {
    type V = VolumeMountView;

    open spec fn deep_view(&self) -> VolumeMountView {
        self.view()
    }
}

/// Spec-level value of a health-check configuration.
pub ghost struct HealthCheckView {
    pub interval: u32,
    pub timeout: u32,
    pub retries: u32,
    pub command: Option<Seq<Seq<char>>>,
}

impl View for HealthCheck {
    type V = HealthCheckView;

    open spec fn view(&self) -> HealthCheckView {
        HealthCheckView {
            interval: self.interval,
            timeout: self.timeout,
            retries: self.retries,
            command: self.command.deep_view(),
        }
    }
}

impl DeepView for HealthCheck {
    type V = HealthCheckView;

    open spec fn deep_view(&self) -> HealthCheckView {
        self.view()
    }
}

/// Immutable-until-updated descriptor of an agent: provider identity,
/// resources, environment, secrets, volumes and policies.
///
/// Memory is declared in MB and CPU in millicores (1000 = one core), so
/// every policy translation is exact integer arithmetic. The environment
/// is an ordered key/value list: insertion order is preserved all the way
/// into the created container.
#[derive(Clone, Debug)]
pub struct AgentConfig {
    pub llm_provider: LlmProvider,
    pub llm_model: Option<String>,
    /// Memory limit in MB.
    pub memory_mb: u32,
    /// CPU limit in millicores: 1000 is one core.
    pub cpu_millicores: u32,
    /// User-supplied environment, in insertion order.
    pub env_vars: Vec<(String, String)>,
    /// Names of secrets to mount; never inlined into the environment.
    pub secrets: Vec<String>,
    /// Resource preset; overrides memory and CPU when set.
    pub preset: Option<ResourcePreset>,
    pub restart_policy: RestartPolicy,
    pub health_check: Option<HealthCheck>,
    pub volumes: Vec<VolumeMount>,
}

/// Spec-level value of an agent configuration.
pub ghost struct AgentConfigView {
    pub llm_provider: ProviderView,
    pub llm_model: Option<Seq<char>>,
    pub memory_mb: u32,
    pub cpu_millicores: u32,
    pub env_vars: Seq<(Seq<char>, Seq<char>)>,
    pub secrets: Seq<Seq<char>>,
    pub preset: Option<ResourcePreset>,
    pub restart_policy: RestartPolicy,
    pub health_check: Option<HealthCheckView>,
    pub volumes: Seq<VolumeMountView>,
}

impl View for AgentConfig {
    type V = AgentConfigView;

    open spec fn view(&self) -> AgentConfigView {
        AgentConfigView {
            llm_provider: self.llm_provider@,
            llm_model: self.llm_model.deep_view(),
            memory_mb: self.memory_mb,
            cpu_millicores: self.cpu_millicores,
            env_vars: self.env_vars.deep_view(),
            secrets: self.secrets.deep_view(),
            preset: self.preset,
            restart_policy: self.restart_policy,
            health_check: self.health_check.deep_view(),
            volumes: self.volumes.deep_view(),
        }
    }
}

impl Default for AgentConfig {
    /// The default configuration: OpenAI, 1024 MB, one core, nothing else.
    fn default() -> (r: Self)
        ensures
            r@ == AgentConfig::spec_default(),
    {
        let r = AgentConfig {
            llm_provider: LlmProvider::OpenAI,
            llm_model: None,
            memory_mb: 1024,
            cpu_millicores: 1000,
            env_vars: Vec::new(),
            secrets: Vec::new(),
            preset: None,
            restart_policy: RestartPolicy::Never,
            health_check: None,
            volumes: Vec::new(),
        };
        proof {
            assert(r@.env_vars =~= Seq::<(Seq<char>, Seq<char>)>::empty());
            assert(r@.secrets =~= Seq::<Seq<char>>::empty());
            assert(r@.volumes =~= Seq::<VolumeMountView>::empty());
        }
        r
    }
}

impl AgentConfig {
    /// The spec-level default configuration.
    pub open spec fn spec_default() -> AgentConfigView {
        AgentConfigView {
            llm_provider: ProviderView::OpenAI,
            llm_model: None,
            memory_mb: 1024u32,
            cpu_millicores: 1000u32,
            env_vars: Seq::empty(),
            secrets: Seq::empty(),
            preset: None,
            restart_policy: RestartPolicy::Never,
            health_check: None,
            volumes: Seq::empty(),
        }
    }
}

/// A copy of an optional string, equal at the deep-view level.
pub fn clone_opt_string(v: &Option<String>) -> (r: Option<String>)
    ensures
        r.deep_view() == v.deep_view(),
{
    match v {
        Some(s) => Some(s.clone()),
        None => None,
    }
}

/// A copy of a string vector, equal at the deep-view level.
pub fn clone_string_vec(v: &Vec<String>) -> (r: Vec<String>)
    ensures
        r.deep_view() == v.deep_view(),
{
    let mut r: Vec<String> = Vec::new();
    let mut i: usize = 0;
    while i < v.len()
        invariant
            i <= v.len(),
            r@.len() == i,
            forall|j: int| 0 <= j < i ==> #[trigger] r@[j]@ == v@[j]@,
        decreases v.len() - i,
    {
        r.push(v[i].clone());
        i = i + 1;
    }
    proof {
        assert forall|j: int| 0 <= j < v@.len() implies #[trigger] r.deep_view()[j]
            == v.deep_view()[j] by {
            assert(r.deep_view()[j] == r@[j]@);
            assert(v.deep_view()[j] == v@[j]@);
        }
        assert(r.deep_view() =~= v.deep_view());
    }
    r
}

/// A copy of an ordered key/value list, equal at the deep-view level.
pub fn clone_env(v: &Vec<(String, String)>) -> (r: Vec<(String, String)>)
    ensures
        r.deep_view() == v.deep_view(),
{
    let mut r: Vec<(String, String)> = Vec::new();
    let mut i: usize = 0;
    while i < v.len()
        invariant
            i <= v.len(),
            r@.len() == i,
            forall|j: int| 0 <= j < i ==> #[trigger] r@[j].0@ == v@[j].0@ && r@[j].1@ == v@[j].1@,
        decreases v.len() - i,
    {
        let (k, val) = (&v[i].0, &v[i].1);
        r.push((k.clone(), val.clone()));
        i = i + 1;
    }
    proof {
        assert forall|j: int| 0 <= j < v@.len() implies #[trigger] r.deep_view()[j]
            == v.deep_view()[j] by {
            assert(r.deep_view()[j] == (r@[j].0@, r@[j].1@));
            assert(v.deep_view()[j] == (v@[j].0@, v@[j].1@));
        }
        assert(r.deep_view() =~= v.deep_view());
    }
    r
}

/// A copy of a volume list, equal at the deep-view level.
pub fn clone_volumes(v: &Vec<VolumeMount>) -> (r: Vec<VolumeMount>)
    ensures
        r.deep_view() == v.deep_view(),
{
    let mut r: Vec<VolumeMount> = Vec::new();
    let mut i: usize = 0;
    while i < v.len()
        invariant
            i <= v.len(),
            r@.len() == i,
            forall|j: int| 0 <= j < i ==> #[trigger] r@[j]@ == v@[j]@,
        decreases v.len() - i,
    {
        r.push(v[i].clone_mount());
        i = i + 1;
    }
    proof {
        assert forall|j: int| 0 <= j < v@.len() implies #[trigger] r.deep_view()[j]
            == v.deep_view()[j] by {
            assert(r.deep_view()[j] == r@[j]@);
            assert(v.deep_view()[j] == v@[j]@);
        }
        assert(r.deep_view() =~= v.deep_view());
    }
    r
}

/// A copy of an optional health check, equal at the deep-view level.
pub fn clone_health(v: &Option<HealthCheck>) -> (r: Option<HealthCheck>)
    ensures
        r.deep_view() == v.deep_view(),
{
    match v {
        Some(h) => Some(
            HealthCheck {
                interval: h.interval,
                timeout: h.timeout,
                retries: h.retries,
                command: match &h.command {
                    Some(c) => Some(clone_string_vec(c)),
                    None => None,
                },
            },
        ),
        None => None,
    }
}

impl DeepView for LlmProvider {
    type V = ProviderView;

    open spec fn deep_view(&self) -> ProviderView {
        self.view()
    }
}

/// Spec-level value of a health-check result.
pub ghost struct HealthStatusView {
    pub healthy: bool,
    pub last_check: Seq<char>,
    pub message: Option<Seq<char>>,
}

impl View for HealthStatus {
    type V = HealthStatusView;

    open spec fn view(&self) -> HealthStatusView {
        HealthStatusView {
            healthy: self.healthy,
            last_check: self.last_check@,
            message: self.message.deep_view(),
        }
    }
}

impl DeepView for HealthStatus {
    type V = HealthStatusView;

    open spec fn deep_view(&self) -> HealthStatusView {
        self.view()
    }
}

/// A running or stopped agent: the unit the roster holds.
///
/// The identifier is assigned by the backend at creation and never
/// changes for the lifetime of the record. The `runtime` tag names the
/// one backend that is authoritative for this record; `None` means the
/// process-wide primary backend.
#[derive(Clone, Debug)]
pub struct AgentContainer {
    pub id: String,
    pub name: String,
    pub status: AgentStatus,
    pub config: AgentConfig,
    pub tailscale_ip: Option<String>,
    pub resource_usage: Option<ResourceUsage>,
    pub project: Option<String>,
    pub tags: Vec<String>,
    pub restart_policy: RestartPolicy,
    pub health_status: Option<HealthStatus>,
    pub runtime: Option<BackendKind>,
}

/// Spec-level value of an agent record.
pub ghost struct AgentContainerView {
    pub id: Seq<char>,
    pub name: Seq<char>,
    pub status: AgentStatus,
    pub config: AgentConfigView,
    pub tailscale_ip: Option<Seq<char>>,
    pub resource_usage: Option<ResourceUsage>,
    pub project: Option<Seq<char>>,
    pub tags: Seq<Seq<char>>,
    pub restart_policy: RestartPolicy,
    pub health_status: Option<HealthStatusView>,
    pub runtime: Option<BackendKind>,
}

impl View for AgentContainer {
    type V = AgentContainerView;

    open spec fn view(&self) -> AgentContainerView {
        AgentContainerView {
            id: self.id@,
            name: self.name@,
            status: self.status,
            config: self.config@,
            tailscale_ip: self.tailscale_ip.deep_view(),
            resource_usage: self.resource_usage,
            project: self.project.deep_view(),
            tags: self.tags.deep_view(),
            restart_policy: self.restart_policy,
            health_status: self.health_status.deep_view(),
            runtime: self.runtime,
        }
    }
}

impl DeepView for AgentContainer {
    type V = AgentContainerView;

    open spec fn deep_view(&self) -> AgentContainerView {
        self.view()
    }
}

/// A copy of an optional health result, equal at the deep-view level.
pub fn clone_health_status(v: &Option<HealthStatus>) -> (r: Option<HealthStatus>)
    ensures
        r.deep_view() == v.deep_view(),
{
    match v {
        Some(h) => Some(
            HealthStatus {
                healthy: h.healthy,
                last_check: h.last_check.clone(),
                message: clone_opt_string(&h.message),
            },
        ),
        None => None,
    }
}

impl AgentContainer {
    /// A copy of this record, equal at the view level.
    pub fn clone_record(&self) -> (r: Self)
        ensures
            r@ == self@,
    {
        AgentContainer {
            id: self.id.clone(),
            name: self.name.clone(),
            status: self.status,
            config: self.config.clone_config(),
            tailscale_ip: clone_opt_string(&self.tailscale_ip),
            resource_usage: self.resource_usage,
            project: clone_opt_string(&self.project),
            tags: clone_string_vec(&self.tags),
            restart_policy: self.restart_policy,
            health_status: clone_health_status(&self.health_status),
            runtime: self.runtime,
        }
    }
}

/// Partial configuration carried by create and update requests; only the
/// fields that are present are applied.
#[derive(Clone, Debug)]
pub struct PartialAgentConfig {
    pub llm_provider: Option<LlmProvider>,
    pub llm_model: Option<String>,
    pub memory_mb: Option<u32>,
    pub cpu_millicores: Option<u32>,
    pub preset: Option<ResourcePreset>,
    pub env_vars: Option<Vec<(String, String)>>,
    pub secrets: Option<Vec<String>>,
    pub restart_policy: Option<RestartPolicy>,
    pub health_check: Option<HealthCheck>,
    pub volumes: Option<Vec<VolumeMount>>,
}

/// Spec-level value of a partial configuration.
pub ghost struct PartialAgentConfigView {
    pub llm_provider: Option<ProviderView>,
    pub llm_model: Option<Seq<char>>,
    pub memory_mb: Option<u32>,
    pub cpu_millicores: Option<u32>,
    pub preset: Option<ResourcePreset>,
    pub env_vars: Option<Seq<(Seq<char>, Seq<char>)>>,
    pub secrets: Option<Seq<Seq<char>>>,
    pub restart_policy: Option<RestartPolicy>,
    pub health_check: Option<HealthCheckView>,
    pub volumes: Option<Seq<VolumeMountView>>,
}

impl View for PartialAgentConfig {
    type V = PartialAgentConfigView;

    open spec fn view(&self) -> PartialAgentConfigView {
        PartialAgentConfigView {
            llm_provider: self.llm_provider.deep_view(),
            llm_model: self.llm_model.deep_view(),
            memory_mb: self.memory_mb,
            cpu_millicores: self.cpu_millicores,
            preset: self.preset,
            env_vars: self.env_vars.deep_view(),
            secrets: self.secrets.deep_view(),
            restart_policy: self.restart_policy,
            health_check: self.health_check.deep_view(),
            volumes: self.volumes.deep_view(),
        }
    }
}

/// Request to create a new agent.
#[derive(Clone, Debug)]
pub struct CreateAgentRequest {
    pub name: String,
    pub template: Option<String>,
    pub config: Option<PartialAgentConfig>,
    pub project: Option<String>,
    pub tags: Vec<String>,
    /// Per-agent backend pin; `None` means the global default.
    pub runtime: Option<String>,
}

/// Request to update an existing agent.
#[derive(Clone, Debug)]
pub struct UpdateAgentRequest {
    pub name: Option<String>,
    pub config: Option<PartialAgentConfig>,
    pub project: Option<String>,
    pub tags: Option<Vec<String>>,
}

/// A project grouping agents.
#[derive(Clone, Debug)]
pub struct Project {
    pub id: String,
    pub name: String,
    pub description: Option<String>,
    pub agents: Vec<String>,
    pub created_at: String,
}

/// Request to create a project.
#[derive(Clone, Debug)]
pub struct CreateProjectRequest {
    pub name: String,
    pub description: Option<String>,
}

/// Metadata of one stored secret.
#[derive(Clone, Debug)]
pub struct SecretInfo {
    pub name: String,
    pub created_at: String,
    pub size_bytes: u64,
}

/// Request to set a secret.
#[derive(Clone, Debug)]
pub struct SetSecretRequest {
    pub name: String,
    pub value: String,
}

/// Metadata of one snapshot.
#[derive(Clone, Debug)]
pub struct SnapshotInfo {
    pub id: String,
    pub agent_id: String,
    pub created_at: String,
    pub size_bytes: u64,
}

impl AgentConfig {
    /// A copy of this configuration, equal at the view level.
    pub fn clone_config(&self) -> (r: Self)
        ensures
            r@ == self@,
    {
        AgentConfig {
            llm_provider: self.llm_provider.clone_provider(),
            llm_model: clone_opt_string(&self.llm_model),
            memory_mb: self.memory_mb,
            cpu_millicores: self.cpu_millicores,
            env_vars: clone_env(&self.env_vars),
            secrets: clone_string_vec(&self.secrets),
            preset: self.preset,
            restart_policy: self.restart_policy,
            health_check: clone_health(&self.health_check),
            volumes: clone_volumes(&self.volumes),
        }
    }
}

/// First index of `key` in an ordered key/value list, or -1.
pub open spec fn spec_env_find(env: Seq<(Seq<char>, Seq<char>)>, key: Seq<char>) -> int
    decreases env.len(),
{
    if env.len() == 0 {
        -1
    } else if env[0].0 == key {
        0
    } else {
        let rest = spec_env_find(env.subrange(1, env.len() as int), key);
        if rest < 0 {
            -1
        } else {
            rest + 1
        }
    }
}

/// Insert or overwrite one key: the first entry with that key is
/// replaced in place; a new key is appended.
pub open spec fn spec_env_upsert(
    env: Seq<(Seq<char>, Seq<char>)>,
    key: Seq<char>,
    value: Seq<char>,
) -> Seq<(Seq<char>, Seq<char>)> {
    let at = spec_env_find(env, key);
    if at < 0 {
        env.push((key, value))
    } else {
        env.update(at, (key, value))
    }
}

/// Fold a list of additions into an environment, left to right.
pub open spec fn spec_env_extend(
    env: Seq<(Seq<char>, Seq<char>)>,
    adds: Seq<(Seq<char>, Seq<char>)>,
) -> Seq<(Seq<char>, Seq<char>)>
    decreases adds.len(),
{
    if adds.len() == 0 {
        env
    } else {
        spec_env_extend(spec_env_upsert(env, adds[0].0, adds[0].1), adds.subrange(1, adds.len() as int))
    }
}

/// First index of `key` in the environment list, if any.
pub fn env_find(env: &Vec<(String, String)>, key: &str) -> (r: Option<usize>)
    ensures
        match r {
            Some(i) => i < env@.len() && spec_env_find(env.deep_view(), key@) == i,
            None => spec_env_find(env.deep_view(), key@) < 0,
        },
{
    let ghost dv = env.deep_view();
    let mut i: usize = 0;
    while i < env.len()
        invariant
            i <= env@.len(),
            dv == env.deep_view(),
            dv.len() == env@.len(),
            forall|j: int| 0 <= j < i ==> (#[trigger] dv[j]).0 != key@,
            forall|j: int| 0 <= j < dv.len() ==> dv[j] == (env@[j].0@, env@[j].1@),
        decreases env@.len() - i,
    {
        if crate::bytes::str_eq(env[i].0.as_str(), key) {
            proof {
                lemma_env_find_prefix(dv, key@, i as int);
            }
            return Some(i);
        }
        i = i + 1;
    }
    proof {
        lemma_env_find_prefix(dv, key@, dv.len() as int);
    }
    None
}

/// If the first `upto` entries miss the key, the first hit at `upto`
/// (when in range) is the find result; a full miss means no find.
proof fn lemma_env_find_prefix(env: Seq<(Seq<char>, Seq<char>)>, key: Seq<char>, upto: int)
    requires
        0 <= upto <= env.len(),
        forall|j: int| 0 <= j < upto ==> (#[trigger] env[j]).0 != key,
    ensures
        upto < env.len() && env[upto].0 == key ==> spec_env_find(env, key) == upto,
        upto == env.len() ==> spec_env_find(env, key) < 0,
    decreases env.len(),
{
    if env.len() > 0 && upto > 0 {
        let rest = env.subrange(1, env.len() as int);
        assert forall|j: int| 0 <= j < upto - 1 implies (#[trigger] rest[j]).0 != key by {
            assert(rest[j] == env[j + 1]);
        }
        lemma_env_find_prefix(rest, key, upto - 1);
        if upto < env.len() {
            assert(rest[upto - 1] == env[upto]);
        }
    }
}

/// Insert or overwrite one environment entry, preserving order.
pub fn env_upsert(env: &mut Vec<(String, String)>, key: &str, value: String)
    ensures
        final(env).deep_view() == spec_env_upsert(old(env).deep_view(), key@, value@),
{
    let ghost dv = env.deep_view();
    let found = env_find(env, key);
    match found {
        Some(i) => {
            let owned_key = key.to_owned();
            env.set(i, (owned_key, value));
            proof {
                assert(env.deep_view() =~= dv.update(i as int, (key@, value@)));
            }
        },
        None => {
            let owned_key = key.to_owned();
            env.push((owned_key, value));
            proof {
                assert(env.deep_view() =~= dv.push((key@, value@)));
            }
        },
    }
}

/// Fold every addition into the environment, left to right: existing
/// keys are overwritten in place, new keys are appended in order.
pub fn env_extend(env: &mut Vec<(String, String)>, adds: &Vec<(String, String)>)
    ensures
        final(env).deep_view() == spec_env_extend(old(env).deep_view(), adds.deep_view()),
{
    let ghost adv = adds.deep_view();
    let ghost orig = env.deep_view();
    proof {
        assert(adv.subrange(0, adv.len() as int) =~= adv);
    }
    let mut i: usize = 0;
    while i < adds.len()
        invariant
            i <= adds@.len(),
            adv == adds.deep_view(),
            adv.len() == adds@.len(),
            forall|j: int| 0 <= j < adv.len() ==> adv[j] == (adds@[j].0@, adds@[j].1@),
            spec_env_extend(env.deep_view(), adv.subrange(i as int, adv.len() as int))
                == spec_env_extend(orig, adv),
        decreases adds@.len() - i,
    {
        let ghost before = env.deep_view();
        env_upsert(env, adds[i].0.as_str(), adds[i].1.clone());
        proof {
            let rem = adv.subrange(i as int, adv.len() as int);
            assert(rem[0] == adv[i as int]);
            assert(rem.subrange(1, rem.len() as int) =~= adv.subrange(
                i + 1 as int,
                adv.len() as int,
            ));
        }
        i = i + 1;
    }
    proof {
        assert(adv.subrange(adv.len() as int, adv.len() as int) =~= Seq::<(
            Seq<char>,
            Seq<char>,
        )>::empty());
    }
}

/// The spec-level result of applying a partial configuration:
/// a present preset overrides memory and CPU; otherwise present scalar
/// fields replace; environment additions fold in; list fields replace
/// wholesale.
pub open spec fn spec_apply(
    cfg: AgentConfigView,
    p: PartialAgentConfigView,
) -> AgentConfigView {
    AgentConfigView {
        llm_provider: if p.llm_provider is Some {
            p.llm_provider->0
        } else {
            cfg.llm_provider
        },
        llm_model: if p.llm_model is Some {
            p.llm_model
        } else {
            cfg.llm_model
        },
        memory_mb: if p.preset is Some {
            p.preset->0.spec_resources().0
        } else if p.memory_mb is Some {
            p.memory_mb->0
        } else {
            cfg.memory_mb
        },
        cpu_millicores: if p.preset is Some {
            p.preset->0.spec_resources().1
        } else if p.cpu_millicores is Some {
            p.cpu_millicores->0
        } else {
            cfg.cpu_millicores
        },
        env_vars: if p.env_vars is Some {
            spec_env_extend(cfg.env_vars, p.env_vars->0)
        } else {
            cfg.env_vars
        },
        secrets: if p.secrets is Some {
            p.secrets->0
        } else {
            cfg.secrets
        },
        preset: if p.preset is Some {
            p.preset
        } else {
            cfg.preset
        },
        restart_policy: if p.restart_policy is Some {
            p.restart_policy->0
        } else {
            cfg.restart_policy
        },
        health_check: if p.health_check is Some {
            p.health_check
        } else {
            cfg.health_check
        },
        volumes: if p.volumes is Some {
            p.volumes->0
        } else {
            cfg.volumes
        },
    }
}

impl AgentConfig {
    /// Apply a partial configuration in place. A present preset
    /// overrides the individual memory and CPU settings.
    pub fn apply(&mut self, partial: &PartialAgentConfig)
        ensures
            final(self)@ == spec_apply(old(self)@, partial@),
    {
        if let Some(provider) = &partial.llm_provider {
            self.llm_provider = provider.clone_provider();
        }
        if let Some(model) = &partial.llm_model {
            self.llm_model = Some(model.clone());
        }
        if let Some(preset) = partial.preset {
            let (mem, cpu) = preset.resources();
            self.memory_mb = mem;
            self.cpu_millicores = cpu;
            self.preset = Some(preset);
        } else {
            if let Some(mem) = partial.memory_mb {
                self.memory_mb = mem;
            }
            if let Some(cpu) = partial.cpu_millicores {
                self.cpu_millicores = cpu;
            }
        }
        if let Some(env) = &partial.env_vars {
            env_extend(&mut self.env_vars, env);
        }
        if let Some(secrets) = &partial.secrets {
            self.secrets = clone_string_vec(secrets);
        }
        if let Some(policy) = partial.restart_policy {
            self.restart_policy = policy;
        }
        if let Some(health) = &partial.health_check {
            self.health_check = clone_health(&Some(
                HealthCheck {
                    interval: health.interval,
                    timeout: health.timeout,
                    retries: health.retries,
                    command: match &health.command {
                        Some(c) => Some(clone_string_vec(c)),
                        None => None,
                    },
                },
            ));
        }
        if let Some(volumes) = &partial.volumes {
            self.volumes = clone_volumes(volumes);
        }
    }
}

} // verus!
