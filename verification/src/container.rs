//! The runtime facade and the pure half of the engine-socket and
//! external-CLI backend adapters: backend selection, request
//! construction, engine output parsing and outcome interpretation.
//! The I/O half — the socket calls and subprocess invocations — lives
//! with the embedding program, which hands the raw outcomes back to
//! the functions here.

use vstd::prelude::*;

verus! {

use vstd::string::StringSliceAdditionalSpecFns;
use crate::bytes::{
    spec_lower, spec_contains, spec_lines, spec_split_ws, spec_all_ascii, spec_chars_of,
    to_ascii_lower, lines_of, split_ws, ascii_str, str_eq, slice_to_vec_u8, format_u64,
};
use crate::config::ContainerRuntimeType;
use crate::errors::EngineError;
use crate::policy::{MeshConfig, build_environment, spec_build_environment, to_engine_limits};
use crate::types::{
    AgentConfig, AgentContainer, AgentStatus, BackendKind, LlmProvider, LogEntry, ProviderView,
};
use crate::validation::{spec_validate, validate, ValidationError};

/// The one container image agents run in, whatever the provider.
pub fn get_image_for_provider(provider: &LlmProvider) -> (r: &'static str)
    ensures
        r@ == "openclaw-agent:latest"@,
{
    match provider {
        _ => "openclaw-agent:latest",
    }
}

/// The facade: exactly one primary backend per process lifetime, the
/// mesh-network configuration it injects, and the per-record dispatch
/// rule. The embedding program owns the sockets and child processes;
/// this value owns every decision about them.
#[derive(Clone, Debug)]
pub struct RuntimeClient {
    /// The primary backend this process drives.
    pub backend: BackendKind,
    /// Path of the external CLI tool, if one was configured.
    pub exo_path: Option<String>,
    /// The configured overlay network backend.
    pub network_backend: crate::config::NetworkBackend,
    /// Mesh control-plane settings, when the mesh backend is in use.
    pub headscale_url: Option<String>,
    pub headscale_auth_key: Option<String>,
    pub headscale_namespace: Option<String>,
}

/// The backend the facade settles on: the requested engine when it is
/// reachable, the isolation runtime as the fallback, the external CLI
/// only when explicitly requested.
pub open spec fn spec_choose_backend(
    requested: ContainerRuntimeType,
    engine_socket_available: bool,
) -> BackendKind {
    match requested {
        ContainerRuntimeType::Exo => BackendKind::ExternalCli,
        ContainerRuntimeType::Docker => if engine_socket_available {
            BackendKind::EngineSocket
        } else {
            BackendKind::IsolationCli
        },
    }
}

impl RuntimeClient {
    /// Settle on a backend: the engine socket when the probe reached
    /// it, else the isolation runtime; the external CLI when asked for.
    pub fn with_runtime(
        runtime_type: ContainerRuntimeType,
        exo_path: Option<String>,
        engine_socket_available: bool,
    ) -> (r: Self)
        ensures
            r.backend == spec_choose_backend(runtime_type, engine_socket_available),
            r.exo_path.deep_view() == exo_path.deep_view(),
            r.network_backend == crate::config::NetworkBackend::Tailscale,
            r.headscale_url is None,
            r.headscale_auth_key is None,
            r.headscale_namespace is None,
    {
        let backend = match runtime_type {
            ContainerRuntimeType::Exo => BackendKind::ExternalCli,
            ContainerRuntimeType::Docker => if engine_socket_available {
                BackendKind::EngineSocket
            } else {
                BackendKind::IsolationCli
            },
        };
        RuntimeClient {
            backend,
            exo_path,
            network_backend: crate::config::NetworkBackend::Tailscale,
            headscale_url: None,
            headscale_auth_key: None,
            headscale_namespace: None,
        }
    }

    /// Install the network configuration, leaving the backend choice
    /// untouched.
    pub fn with_network_config(
        self,
        network_backend: crate::config::NetworkBackend,
        headscale_url: Option<String>,
        headscale_auth_key: Option<String>,
        headscale_namespace: Option<String>,
    ) -> (r: Self)
        ensures
            r.backend == self.backend,
            r.exo_path.deep_view() == self.exo_path.deep_view(),
            r.network_backend == network_backend,
            r.headscale_url.deep_view() == headscale_url.deep_view(),
            r.headscale_auth_key.deep_view() == headscale_auth_key.deep_view(),
            r.headscale_namespace.deep_view() == headscale_namespace.deep_view(),
    {
        RuntimeClient {
            backend: self.backend,
            exo_path: self.exo_path,
            network_backend,
            headscale_url,
            headscale_auth_key,
            headscale_namespace,
        }
    }

    /// A second handle onto the same facade, used when the secondary
    /// external-CLI adapter cannot be constructed and falls back to
    /// the primary.
    pub fn clone_runtime_client(&self) -> (r: Self)
        ensures
            r.backend == self.backend,
            r.exo_path.deep_view() == self.exo_path.deep_view(),
            r.network_backend == self.network_backend,
            r.headscale_url.deep_view() == self.headscale_url.deep_view(),
            r.headscale_auth_key.deep_view() == self.headscale_auth_key.deep_view(),
            r.headscale_namespace.deep_view() == self.headscale_namespace.deep_view(),
    {
        RuntimeClient {
            backend: self.backend,
            exo_path: crate::types::clone_opt_string(&self.exo_path),
            network_backend: self.network_backend,
            headscale_url: crate::types::clone_opt_string(&self.headscale_url),
            headscale_auth_key: crate::types::clone_opt_string(&self.headscale_auth_key),
            headscale_namespace: crate::types::clone_opt_string(&self.headscale_namespace),
        }
    }

    /// The single dispatch seam: a record pinned to the external CLI
    /// is served by the secondary adapter; everything else goes to
    /// this facade's primary backend.
    pub fn adapter_for(&self, record_runtime: &Option<BackendKind>) -> (r: BackendKind)
        ensures
            r == (if record_runtime == Some(BackendKind::ExternalCli) {
                BackendKind::ExternalCli
            } else {
                self.backend
            }),
    {
        match record_runtime {
            Some(BackendKind::ExternalCli) => BackendKind::ExternalCli,
            _ => self.backend,
        }
    }

    /// The mesh slice of the facade's network configuration, injected
    /// into every created container when the mesh backend is in use.
    pub fn mesh_config(&self) -> (r: Option<MeshConfig>)
        ensures
            (self.network_backend == crate::config::NetworkBackend::Headscale) <==> r is Some,
            r matches Some(m) ==> m.headscale_url.deep_view() == self.headscale_url.deep_view()
                && m.headscale_auth_key.deep_view() == self.headscale_auth_key.deep_view()
                && m.headscale_namespace.deep_view() == self.headscale_namespace.deep_view(),
    {
        if self.network_backend == crate::config::NetworkBackend::Headscale {
            Some(
                MeshConfig {
                    headscale_url: crate::types::clone_opt_string(&self.headscale_url),
                    headscale_auth_key: crate::types::clone_opt_string(&self.headscale_auth_key),
                    headscale_namespace: crate::types::clone_opt_string(
                        &self.headscale_namespace,
                    ),
                },
            )
        } else {
            None
        }
    }
}

/// The label value a provider gets on the engine's containers.
pub open spec fn spec_provider_label(p: ProviderView) -> Seq<char> {
    match p {
        ProviderView::OpenAI => "openai"@,
        ProviderView::Anthropic => "anthropic"@,
        ProviderView::Gemini => "gemini"@,
        ProviderView::Kimi => "kimi"@,
        ProviderView::Zai => "zai"@,
        ProviderView::Huggingface => "huggingface"@,
        ProviderView::Ollama => "ollama"@,
        ProviderView::LlamaCpp => "llamacpp"@,
        ProviderView::Vllm => "vllm"@,
        ProviderView::Lmstudio => "lmstudio"@,
        ProviderView::KimiCode => "kimicode"@,
        ProviderView::Access => "access"@,
        ProviderView::Custom { .. } => "custom"@,
    }
}

/// The provider's label value.
pub fn provider_label(p: &LlmProvider) -> (r: &'static str)
    ensures
        r@ == spec_provider_label(p@),
{
    match p {
        LlmProvider::OpenAI => "openai",
        LlmProvider::Anthropic => "anthropic",
        LlmProvider::Gemini => "gemini",
        LlmProvider::Kimi => "kimi",
        LlmProvider::Zai => "zai",
        LlmProvider::Huggingface => "huggingface",
        LlmProvider::Ollama => "ollama",
        LlmProvider::LlamaCpp => "llamacpp",
        LlmProvider::Vllm => "vllm",
        LlmProvider::Lmstudio => "lmstudio",
        LlmProvider::KimiCode => "kimicode",
        LlmProvider::Access => "access",
        LlmProvider::Custom { .. } => "custom",
    }
}

/// The discovery labels every managed container carries: the managed
/// marker, the display name, and the provider.
pub open spec fn spec_labels(name: Seq<char>, p: ProviderView) -> Seq<(Seq<char>, Seq<char>)> {
    seq![
        ("claw-pen-agent"@, "true"@),
        ("claw-pen-agent-name"@, name),
        ("claw-pen-agent-provider"@, spec_provider_label(p)),
    ]
}

/// Build the discovery labels for a container.
pub fn build_labels(name: &str, provider: &LlmProvider) -> (r: Vec<(String, String)>)
    ensures
        r.deep_view() == spec_labels(name@, provider@),
{
    let mut r: Vec<(String, String)> = Vec::new();
    crate::policy::env_push(&mut r, "claw-pen-agent".to_owned(), "true".to_owned());
    crate::policy::env_push(&mut r, "claw-pen-agent-name".to_owned(), name.to_owned());
    crate::policy::env_push(
        &mut r,
        "claw-pen-agent-provider".to_owned(),
        provider_label(provider).to_owned(),
    );
    proof {
        assert(r.deep_view() =~= spec_labels(name@, provider@));
    }
    r
}

/// Whether the isolated bridge network is missing from the engine's
/// network list and must be created.
pub fn network_missing(names: &Vec<String>) -> (r: bool)
    ensures
        r == !(exists|j: int|
            0 <= j < names@.len() && (#[trigger] names@[j])@ == "claw-pen-network"@),
{
    let mut i: usize = 0;
    while i < names.len()
        invariant
            i <= names@.len(),
            forall|j: int| 0 <= j < i ==> (#[trigger] names@[j])@ != "claw-pen-network"@,
        decreases names@.len() - i,
    {
        if str_eq(names[i].as_str(), "claw-pen-network") {
            return false;
        }
        i = i + 1;
    }
    true
}

/// The request that creates the isolated bridge network: a dedicated
/// bridge with its own subnet, attachable, never an ingress, so agent
/// containers are never placed on the host network.
pub struct EngineNetworkRequest {
    pub name: String,
    pub driver: String,
    pub check_duplicate: bool,
    pub internal: bool,
    pub enable_ipv6: bool,
    pub subnet: String,
    pub attachable: bool,
    pub ingress: bool,
    pub labels: Vec<(String, String)>,
}

/// Build the isolated-network creation request.
pub fn build_network_request() -> (r: EngineNetworkRequest)
    ensures
        r.name@ == "claw-pen-network"@,
        r.driver@ == "bridge"@,
        r.check_duplicate,
        !r.internal,
        !r.enable_ipv6,
        r.subnet@ == "172.28.0.0/16"@,
        r.attachable,
        !r.ingress,
        r.labels.deep_view() == seq![
            ("claw-pen"@, "true"@),
            ("purpose"@, "agent-isolation"@),
        ],
{
    let mut labels: Vec<(String, String)> = Vec::new();
    crate::policy::env_push(&mut labels, "claw-pen".to_owned(), "true".to_owned());
    crate::policy::env_push(&mut labels, "purpose".to_owned(), "agent-isolation".to_owned());
    proof {
        assert(labels.deep_view() =~= seq![
            ("claw-pen"@, "true"@),
            ("purpose"@, "agent-isolation"@),
        ]);
    }
    EngineNetworkRequest {
        name: "claw-pen-network".to_owned(),
        driver: "bridge".to_owned(),
        check_duplicate: true,
        internal: false,
        enable_ipv6: false,
        subnet: "172.28.0.0/16".to_owned(),
        attachable: true,
        ingress: false,
        labels,
    }
}

/// The full container-creation request for the engine-socket backend:
/// bridge networking (never the host network), the internal service
/// port bound only to loopback with an engine-assigned host port, and
/// a fixed security profile — every capability dropped but the one for
/// privileged ports, no privilege escalation, never privileged.
pub struct EngineCreateRequest {
    pub name: String,
    pub image: String,
    pub env: Vec<(String, String)>,
    pub labels: Vec<(String, String)>,
    /// The one exposed container port.
    pub exposed_port: u16,
    /// The only host address the port is published on.
    pub host_ip: String,
    pub memory_bytes: u64,
    pub nano_cpus: u64,
    pub network_mode: String,
    pub security_opt: Vec<String>,
    pub privileged: bool,
    pub readonly_rootfs: bool,
    pub cap_drop: Vec<String>,
    pub cap_add: Vec<String>,
    /// Graceful-stop window in seconds before force termination.
    pub stop_timeout_secs: u32,
}

/// Build the engine-socket creation request for a validated spec.
/// Validation runs first: a spec the policy rejects never reaches the
/// engine, and the error says why.
pub fn build_engine_create_request(
    name: &str,
    config: &AgentConfig,
    mesh: Option<&MeshConfig>,
) -> (r: Result<EngineCreateRequest, ValidationError>)
    ensures
        r is Ok <==> spec_validate(name@, config@) is Ok,
        r matches Err(e) ==> Err::<(), _>(e) == spec_validate(name@, config@),
        r matches Ok(req) ==> {
            &&& req.name@ == name@
            &&& req.image@ == "openclaw-agent:latest"@
            &&& req.env.deep_view() == spec_build_environment(
                config@,
                match mesh {
                    Some(m) => Some(m@),
                    None => None,
                },
            )
            &&& req.labels.deep_view() == spec_labels(name@, config.llm_provider@)
            &&& req.exposed_port == 8080
            &&& req.host_ip@ == "127.0.0.1"@
            &&& req.memory_bytes == config.memory_mb * 1024 * 1024
            &&& req.nano_cpus == config.cpu_millicores * 1_000_000
            &&& req.network_mode@ == "bridge"@
            &&& req.security_opt.deep_view() == seq!["no-new-privileges:true"@]
            &&& !req.privileged
            &&& !req.readonly_rootfs
            &&& req.cap_drop.deep_view() == seq!["ALL"@]
            &&& req.cap_add.deep_view() == seq!["NET_BIND_SERVICE"@]
            &&& req.stop_timeout_secs == 10
        },
{
    if let Err(e) = validate(name, config) {
        return Err(e);
    }
    let limits = to_engine_limits(config.memory_mb, config.cpu_millicores);
    let env = build_environment(config, mesh);
    let labels = build_labels(name, &config.llm_provider);
    let mut security_opt: Vec<String> = Vec::new();
    security_opt.push("no-new-privileges:true".to_owned());
    let mut cap_drop: Vec<String> = Vec::new();
    cap_drop.push("ALL".to_owned());
    let mut cap_add: Vec<String> = Vec::new();
    cap_add.push("NET_BIND_SERVICE".to_owned());
    proof {
        assert(security_opt.deep_view() =~= seq!["no-new-privileges:true"@]);
        assert(cap_drop.deep_view() =~= seq!["ALL"@]);
        assert(cap_add.deep_view() =~= seq!["NET_BIND_SERVICE"@]);
    }
    Ok(
        EngineCreateRequest {
            name: name.to_owned(),
            image: get_image_for_provider(&config.llm_provider).to_owned(),
            env,
            labels,
            exposed_port: 8080,
            host_ip: "127.0.0.1".to_owned(),
            memory_bytes: limits.memory_bytes,
            nano_cpus: limits.nano_cpus,
            network_mode: "bridge".to_owned(),
            security_opt,
            privileged: false,
            readonly_rootfs: false,
            cap_drop,
            cap_add,
            stop_timeout_secs: 10,
        },
    )
}

/// The lifecycle state an engine-reported container state stands for.
pub open spec fn spec_engine_state_status(s: Seq<char>) -> AgentStatus {
    if s == "running"@ {
        AgentStatus::Running
    } else if s == "exited"@ || s == "stopped"@ || s == "dead"@ || s == "paused"@ {
        AgentStatus::Stopped
    } else if s == "restarting"@ || s == "created"@ {
        AgentStatus::Starting
    } else {
        AgentStatus::Error
    }
}

/// Map an engine-reported container state to a lifecycle state.
pub fn engine_state_to_status(state: &str) -> (r: AgentStatus)
    ensures
        r == spec_engine_state_status(state@),
{
    if str_eq(state, "running") {
        AgentStatus::Running
    } else if str_eq(state, "exited") || str_eq(state, "stopped") || str_eq(state, "dead")
        || str_eq(state, "paused") {
        AgentStatus::Stopped
    } else if str_eq(state, "restarting") || str_eq(state, "created") {
        AgentStatus::Starting
    } else {
        AgentStatus::Error
    }
}

/// Whether a container's labels mark it as managed by this system.
pub fn is_managed(label_keys: &Vec<String>) -> (r: bool)
    ensures
        r == (exists|j: int|
            0 <= j < label_keys@.len() && (#[trigger] label_keys@[j])@ == "claw-pen-agent"@),
{
    let mut i: usize = 0;
    while i < label_keys.len()
        invariant
            i <= label_keys@.len(),
            forall|j: int| 0 <= j < i ==> (#[trigger] label_keys@[j])@ != "claw-pen-agent"@,
        decreases label_keys@.len() - i,
    {
        if str_eq(label_keys[i].as_str(), "claw-pen-agent") {
            return true;
        }
        i = i + 1;
    }
    false
}

/// A name with every leading slash dropped, as the engine reports
/// names with a leading `/`.
pub open spec fn spec_strip_slashes(s: Seq<char>) -> Seq<char>
    decreases s.len(),
{
    if s.len() > 0 && s[0] == '/' {
        spec_strip_slashes(s.subrange(1, s.len() as int))
    } else {
        s
    }
}

/// Drop the leading slashes from an engine-reported container name.
#[verifier::loop_isolation(false)]
pub fn strip_leading_slashes(raw: &str) -> (r: String)
    ensures
        r@ == spec_strip_slashes(raw@),
{
    let n = raw.unicode_len();
    let mut i: usize = 0;
    proof {
        assert(raw@.subrange(0, n as int) =~= raw@);
    }
    while i < n && raw.get_char(i) == '/'
        invariant
            i <= n,
            n == raw@.len(),
            spec_strip_slashes(raw@) == spec_strip_slashes(raw@.subrange(i as int, n as int)),
        decreases n - i,
    {
        proof {
            let cur = raw@.subrange(i as int, n as int);
            assert(cur[0] == raw@[i as int]);
            assert(cur.subrange(1, cur.len() as int) =~= raw@.subrange(i + 1, n as int));
        }
        i = i + 1;
    }
    let tail = raw.substring_char(i, n);
    proof {
        let cur = raw@.subrange(i as int, n as int);
        if cur.len() > 0 {
            assert(cur[0] == raw@[i as int]);
        }
        assert(spec_strip_slashes(cur) == cur);
    }
    tail.to_owned()
}

/// The record a live engine-socket container is adopted under: the
/// reported state mapped to a lifecycle state, the name stripped of
/// its leading slash, a default spec, and the engine-socket tag.
pub fn container_record_from_summary(id: String, raw_name: &str, state: &str) -> (r:
    AgentContainer)
    ensures
        r.id@ == id@,
        r.name@ == spec_strip_slashes(raw_name@),
        r.status == spec_engine_state_status(state@),
        r.config@ == AgentConfig::spec_default(),
        r.runtime == Some(BackendKind::EngineSocket),
        r.tailscale_ip is None,
        r.resource_usage is None,
        r.project is None,
        r.tags@.len() == 0,
        r.restart_policy == crate::types::RestartPolicy::Never,
        r.health_status is None,
{
    AgentContainer {
        id,
        name: strip_leading_slashes(raw_name),
        status: engine_state_to_status(state),
        config: AgentConfig::default(),
        tailscale_ip: None,
        resource_usage: None,
        project: None,
        tags: Vec::new(),
        restart_policy: crate::types::RestartPolicy::Never,
        health_status: None,
        runtime: Some(BackendKind::EngineSocket),
    }
}

/// What an inspect call against the engine reported.
#[derive(Clone, Debug)]
pub enum InspectOutcome {
    Found,
    Missing,
    Failed(String),
}

/// Whether a container exists, from the inspect outcome: a missing
/// container is `false`, not an error.
pub fn exists_from_inspect(outcome: InspectOutcome) -> (r: Result<bool, EngineError>)
    ensures
        outcome is Found ==> r == Ok::<bool, EngineError>(true),
        outcome is Missing ==> r == Ok::<bool, EngineError>(false),
        outcome matches InspectOutcome::Failed(_) ==> r is Err && r->Err_0@ matches
            crate::errors::EngineErrorView::Engine(_),
{
    match outcome {
        InspectOutcome::Found => Ok(true),
        InspectOutcome::Missing => Ok(false),
        InspectOutcome::Failed(msg) => Err(EngineError::Engine(msg)),
    }
}

/// The external-CLI backend adapter's pure half: the third-party tool
/// is driven through `run`, `start`, `stop`, `rm`, `ps --all` and
/// `logs` subcommands, and its tabular output is parsed here. The tool
/// must answer a version probe at construction.
#[derive(Clone, Debug)]
pub struct ExoClient {
    /// Path of the CLI tool.
    pub exo_path: String,
}

impl ExoClient {
    /// An adapter bound to the tool at `exo_path`, or the tool name
    /// alone to be found on the search path.
    pub fn with_path(exo_path: Option<String>) -> (r: Self)
        ensures
            match exo_path {
                Some(p) => r.exo_path@ == p@,
                None => r.exo_path@ == "exo"@,
            },
    {
        match exo_path {
            Some(p) => ExoClient { exo_path: p },
            None => ExoClient { exo_path: "exo".to_owned() },
        }
    }

    /// Whether the version probe made at construction succeeded:
    /// construction fails loudly when the tool is missing or
    /// unresponsive.
    pub fn probe_result(self, probe_ok: bool) -> (r: Result<Self, EngineError>)
        ensures
            probe_ok <==> r is Ok,
            r matches Ok(c) ==> c.exo_path@ == self.exo_path@,
            r is Err ==> r->Err_0@ matches crate::errors::EngineErrorView::Connection(_),
    {
        if probe_ok {
            Ok(self)
        } else {
            let mut msg = String::from_str("version probe failed for ");
            msg.append(self.exo_path.as_str());
            Err(EngineError::Connection(msg))
        }
    }
}

/// The decimal rendering of a millicore count as fractional cores:
/// `1000` is `1`, `500` is `0.5`, `1250` is `1.25`, trailing zeros of
/// the fraction dropped.
pub open spec fn spec_cores_bytes(m: int) -> Seq<u8> {
    let q = m / 1000;
    let r = m % 1000;
    if r == 0 {
        crate::bytes::spec_u64_digits(q)
    } else if r % 100 == 0 {
        crate::bytes::spec_u64_digits(q) + seq![46u8, (48 + r / 100) as u8]
    } else if r % 10 == 0 {
        crate::bytes::spec_u64_digits(q) + seq![
            46u8,
            (48 + r / 100) as u8,
            (48 + (r / 10) % 10) as u8,
        ]
    } else {
        crate::bytes::spec_u64_digits(q) + seq![
            46u8,
            (48 + r / 100) as u8,
            (48 + (r / 10) % 10) as u8,
            (48 + r % 10) as u8,
        ]
    }
}

/// Render a millicore count as a fractional-core argument string.
pub fn format_cores(m: u32) -> (r: String)
    ensures
        r@ == spec_chars_of(spec_cores_bytes(m as int)),
{
    let q = m / 1000;
    let rem = m % 1000;
    let mut b = format_u64(q as u64);
    if rem != 0 {
        b.push(46);
        b.push(48 + (rem / 100) as u8);
        if rem % 100 != 0 {
            b.push(48 + ((rem / 10) % 10) as u8);
            if rem % 10 != 0 {
                b.push(48 + (rem % 10) as u8);
            } else {
                proof {
                    assert(b@ =~= spec_cores_bytes(m as int));
                }
            }
        } else {
            proof {
                assert(b@ =~= spec_cores_bytes(m as int));
            }
        }
    }
    proof {
        assert(b@ =~= spec_cores_bytes(m as int));
        crate::bytes::lemma_u64_digits_ascii(q as int);
        assert(spec_all_ascii(b@));
    }
    ascii_str(b.as_slice())
}

/// One row of the external CLI's `ps` table.
#[derive(Clone, Debug)]
pub struct ExternalRow {
    pub id: Vec<u8>,
    pub name: Vec<u8>,
    pub status: AgentStatus,
}

/// Spec-level value of one `ps` row.
pub ghost struct ExternalRowView {
    pub id: Seq<u8>,
    pub name: Seq<u8>,
    pub status: AgentStatus,
}

impl View for ExternalRow {
    type V = ExternalRowView;

    open spec fn view(&self) -> ExternalRowView {
        ExternalRowView { id: self.id@, name: self.name@, status: self.status }
    }
}

impl DeepView for ExternalRow {
    type V = ExternalRowView;

    open spec fn deep_view(&self) -> ExternalRowView {
        self.view()
    }
}

/// The lifecycle state an external-CLI status column stands for, after
/// lower-casing: the status substring decides.
pub open spec fn spec_external_status(sl: Seq<u8>) -> AgentStatus {
    if spec_contains(sl, "running"@.map(|_i: int, c: char| c as u8)) {
        AgentStatus::Running
    } else if spec_contains(sl, "stopped"@.map(|_i: int, c: char| c as u8)) || spec_contains(
        sl,
        "exited"@.map(|_i: int, c: char| c as u8),
    ) {
        AgentStatus::Stopped
    } else if spec_contains(sl, "starting"@.map(|_i: int, c: char| c as u8)) {
        AgentStatus::Starting
    } else {
        AgentStatus::Error
    }
}

/// Map one lower-cased status column to a lifecycle state.
pub fn external_status(sl: &[u8]) -> (r: AgentStatus)
    ensures
        r == spec_external_status(sl@),
{
    proof {
        reveal_strlit("running");
        reveal_strlit("stopped");
        reveal_strlit("exited");
        reveal_strlit("starting");
        assert(vstd::string::is_ascii("running"));
        assert(vstd::string::is_ascii("stopped"));
        assert(vstd::string::is_ascii("exited"));
        assert(vstd::string::is_ascii("starting"));
    }
    if crate::bytes::contains_ascii(sl, "running") {
        AgentStatus::Running
    } else if crate::bytes::contains_ascii(sl, "stopped") || crate::bytes::contains_ascii(
        sl,
        "exited",
    ) {
        AgentStatus::Stopped
    } else if crate::bytes::contains_ascii(sl, "starting") {
        AgentStatus::Starting
    } else {
        AgentStatus::Error
    }
}

/// The rows of a `ps` table body: each line with at least three
/// whitespace-separated columns becomes one row — identifier, name,
/// and the status column lower-cased and substring-matched.
pub open spec fn spec_rows_of(lines: Seq<Seq<u8>>) -> Seq<ExternalRowView>
    decreases lines.len(),
{
    if lines.len() == 0 {
        Seq::empty()
    } else {
        let rest = spec_rows_of(lines.drop_first());
        let t = spec_split_ws(lines[0]);
        if t.len() >= 3 {
            seq![
                ExternalRowView {
                    id: t[0],
                    name: t[1],
                    status: spec_external_status(spec_lower(t[2])),
                },
            ] + rest
        } else {
            rest
        }
    }
}

/// The rows of a whole `ps --all` output: the header line is skipped.
pub open spec fn spec_parse_external_ps(out: Seq<u8>) -> Seq<ExternalRowView> {
    let lines = spec_lines(out);
    if lines.len() == 0 {
        Seq::empty()
    } else {
        spec_rows_of(lines.drop_first())
    }
}

/// Parse the external CLI's `ps --all` output.
#[verifier::loop_isolation(false)]
pub fn parse_external_ps(out: &[u8]) -> (r: Vec<ExternalRow>)
    ensures
        r.deep_view() == spec_parse_external_ps(out@),
{
    let lines = lines_of(out);
    let ghost lv = Seq::new(lines@.len(), |j: int| lines@[j]@);
    proof {
        assert(lv =~= spec_lines(out@));
    }
    let mut r: Vec<ExternalRow> = Vec::new();
    let ghost mut acc: Seq<ExternalRowView> = Seq::empty();
    if lines.len() == 0 {
        proof {
            assert(r.deep_view() =~= spec_parse_external_ps(out@));
        }
        return r;
    }
    let mut i: usize = 1;
    proof {
        assert(lv.subrange(1, lv.len() as int) =~= lv.drop_first());
        assert(acc + spec_rows_of(lv.drop_first()) =~= spec_rows_of(lv.drop_first()));
    }
    while i < lines.len()
        invariant
            1 <= i <= lv.len(),
            r@.len() == acc.len(),
            forall|j: int| 0 <= j < acc.len() ==> (#[trigger] r@[j])@ == acc[j],
            spec_rows_of(lv.drop_first()) == acc + spec_rows_of(
                lv.subrange(i as int, lv.len() as int),
            ),
        decreases lv.len() - i,
    {
        let ghost rem = lv.subrange(i as int, lv.len() as int);
        proof {
            assert(rem[0] == lv[i as int]);
            assert(rem.drop_first() =~= lv.subrange(i + 1, lv.len() as int));
        }
        let tokens = split_ws(lines[i].as_slice());
        if tokens.len() >= 3 {
            let id = slice_to_vec_u8(tokens[0].as_slice());
            let name = slice_to_vec_u8(tokens[1].as_slice());
            let lowered = to_ascii_lower(tokens[2].as_slice());
            let status = external_status(lowered.as_slice());
            r.push(ExternalRow { id, name, status });
            proof {
                acc = acc.push(
                    ExternalRowView {
                        id: spec_split_ws(lv[i as int])[0],
                        name: spec_split_ws(lv[i as int])[1],
                        status: spec_external_status(spec_lower(spec_split_ws(lv[i as int])[2])),
                    },
                );
            }
        }
        i = i + 1;
    }
    proof {
        assert(lv.subrange(lv.len() as int, lv.len() as int).len() == 0);
        assert(r.deep_view() =~= acc);
        assert(acc =~= spec_rows_of(lv.drop_first()));
    }
    r
}

/// The first whitespace-separated token of a line: the identifier
/// column of a `ps` row.
pub fn parse_container_id(line: &[u8]) -> (r: Option<Vec<u8>>)
    ensures
        match r {
            Some(id) => spec_split_ws(line@).len() > 0 && id@ == spec_split_ws(line@)[0],
            None => spec_split_ws(line@).len() == 0,
        },
{
    let mut tokens = split_ws(line);
    if tokens.len() == 0 {
        None
    } else {
        let first = slice_to_vec_u8(tokens[0].as_slice());
        Some(first)
    }
}

/// Whether a container with this identifier — or this name, which the
/// tool also accepts — appears in the parsed rows.
pub fn exists_in_rows(rows: &Vec<ExternalRow>, id: &[u8]) -> (r: bool)
    ensures
        r == (exists|j: int|
            0 <= j < rows@.len() && ((#[trigger] rows@[j]).id@ == id@ || rows@[j].name@ == id@)),
{
    let mut i: usize = 0;
    while i < rows.len()
        invariant
            i <= rows@.len(),
            forall|j: int|
                0 <= j < i ==> (#[trigger] rows@[j]).id@ != id@ && rows@[j].name@ != id@,
        decreases rows@.len() - i,
    {
        if crate::bytes::bytes_eq(rows[i].id.as_slice(), id) || crate::bytes::bytes_eq(
            rows[i].name.as_slice(),
            id,
        ) {
            return true;
        }
        i = i + 1;
    }
    false
}

/// Whether a container with this identifier or name is in the rows
/// and running: the minimum viable health check.
pub fn is_running_in_rows(rows: &Vec<ExternalRow>, id: &[u8]) -> (r: bool)
    ensures
        r == (exists|j: int|
            0 <= j < rows@.len() && ((#[trigger] rows@[j]).id@ == id@ || rows@[j].name@ == id@)
                && rows@[j].status == AgentStatus::Running),
{
    let mut i: usize = 0;
    while i < rows.len()
        invariant
            i <= rows@.len(),
            forall|j: int|
                0 <= j < i ==> !(((#[trigger] rows@[j]).id@ == id@ || rows@[j].name@ == id@)
                    && rows@[j].status == AgentStatus::Running),
        decreases rows@.len() - i,
    {
        if (crate::bytes::bytes_eq(rows[i].id.as_slice(), id) || crate::bytes::bytes_eq(
            rows[i].name.as_slice(),
            id,
        )) && rows[i].status == AgentStatus::Running {
            return true;
        }
        i = i + 1;
    }
    false
}

/// The environment flags of a `run` invocation: each entry becomes a
/// `-e` flag followed by `KEY=VALUE`.
pub open spec fn spec_env_args(env: Seq<(Seq<char>, Seq<char>)>) -> Seq<Seq<char>> {
    Seq::new(
        2 * env.len(),
        |j: int|
            if j % 2 == 0 {
                "-e"@
            } else {
                env[j / 2].0 + "="@ + env[j / 2].1
            },
    )
}

/// Flatten the policy environment into `-e KEY=VALUE` argument pairs.
#[verifier::loop_isolation(false)]
pub fn build_env_args(config: &AgentConfig) -> (r: Vec<String>)
    ensures
        r.deep_view() == spec_env_args(spec_build_environment(config@, None)),
{
    let env = build_environment(config, None);
    let ghost edv = env.deep_view();
    let ghost goal = spec_env_args(edv);
    let mut r: Vec<String> = Vec::new();
    let mut i: usize = 0;
    while i < env.len()
        invariant
            i <= env@.len(),
            edv.len() == env@.len(),
            forall|j: int| 0 <= j < edv.len() ==> edv[j] == (env@[j].0@, env@[j].1@),
            r@.len() == 2 * i,
            forall|j: int| 0 <= j < 2 * i ==> (#[trigger] r@[j])@ == goal[j],
        decreases env@.len() - i,
    {
        r.push("-e".to_owned());
        let mut kv = env[i].0.clone();
        kv.append("=");
        kv.append(env[i].1.as_str());
        r.push(kv);
        i = i + 1;
    }
    proof {
        assert forall|j: int| 0 <= j < r@.len() implies r.deep_view()[j] == goal[j] by {
            assert(r.deep_view()[j] == r@[j]@);
        }
        assert(r.deep_view() =~= goal);
    }
    r
}

/// The full `run` argument list of the external CLI: name, detach,
/// the memory and fractional-core limits, the environment flags, the
/// image and the agent entry command.
pub open spec fn spec_external_run_args(name: Seq<char>, cfg: crate::types::AgentConfigView) -> Seq<
    Seq<char>,
> {
    seq![
        "run"@,
        "--name"@,
        name,
        "--detach"@,
        "--memory"@,
        spec_chars_of(crate::bytes::spec_u64_digits(cfg.memory_mb as int)) + "m"@,
        "--cpu"@,
        spec_chars_of(spec_cores_bytes(cfg.cpu_millicores as int)),
    ] + spec_env_args(spec_build_environment(cfg, None)) + seq![
        "openclaw-agent:latest"@,
        "openclaw"@,
    ]
}

/// Build the external CLI's `run` arguments for a validated spec.
/// Validation runs first; a rejected spec never reaches the tool.
pub fn build_external_run_args(name: &str, config: &AgentConfig) -> (r: Result<
    Vec<String>,
    ValidationError,
>)
    ensures
        r is Ok <==> spec_validate(name@, config@) is Ok,
        r matches Err(e) ==> Err::<(), _>(e) == spec_validate(name@, config@),
        r matches Ok(args) ==> args.deep_view() == spec_external_run_args(name@, config@),
{
    if let Err(e) = validate(name, config) {
        return Err(e);
    }
    let mut r: Vec<String> = Vec::new();
    crate::bytes::push_string(&mut r, "run".to_owned());
    crate::bytes::push_string(&mut r, "--name".to_owned());
    crate::bytes::push_string(&mut r, name.to_owned());
    crate::bytes::push_string(&mut r, "--detach".to_owned());
    crate::bytes::push_string(&mut r, "--memory".to_owned());
    let mem_digits = format_u64(config.memory_mb as u64);
    proof {
        crate::bytes::lemma_u64_digits_ascii(config.memory_mb as int);
    }
    let mut mem = ascii_str(mem_digits.as_slice());
    mem.append("m");
    crate::bytes::push_string(&mut r, mem);
    crate::bytes::push_string(&mut r, "--cpu".to_owned());
    crate::bytes::push_string(&mut r, format_cores(config.cpu_millicores));
    let env_args = build_env_args(config);
    let ghost head = r.deep_view();
    let mut i: usize = 0;
    proof {
        assert(r.deep_view() =~= head + env_args.deep_view().subrange(0, 0));
    }
    while i < env_args.len()
        invariant
            i <= env_args@.len(),
            env_args.deep_view().len() == env_args@.len(),
            r.deep_view() == head + env_args.deep_view().subrange(0, i as int),
        decreases env_args@.len() - i,
    {
        crate::bytes::push_string(&mut r, env_args[i].clone());
        proof {
            assert(env_args.deep_view()[i as int] == env_args@[i as int]@);
            assert(r.deep_view() =~= head + env_args.deep_view().subrange(0, i + 1));
        }
        i = i + 1;
    }
    proof {
        assert(env_args.deep_view().subrange(0, env_args.deep_view().len() as int)
            =~= env_args.deep_view());
    }
    crate::bytes::push_string(&mut r, "openclaw-agent:latest".to_owned());
    crate::bytes::push_string(&mut r, "openclaw".to_owned());
    proof {
        assert(r.deep_view() =~= spec_external_run_args(name@, config@));
    }
    Ok(r)
}

/// Wrap each line of a `logs` output as one record with a synthesized
/// timestamp: the tool does not expose timestamps per line.
pub fn logs_from_lines(out: &[u8], now: &str) -> (r: Vec<LogEntry>)
    ensures
        r@.len() == spec_lines(out@).len(),
        forall|j: int|
            0 <= j < r@.len() ==> {
                &&& (#[trigger] r@[j]).timestamp@ == now@
                &&& r@[j].level@ == "info"@
                &&& (vstd::utf8::valid_utf8(spec_lines(out@)[j]) ==> r@[j].message@
                    == vstd::utf8::decode_utf8(spec_lines(out@)[j]))
            },
{
    let lines = lines_of(out);
    let mut r: Vec<LogEntry> = Vec::new();
    let mut i: usize = 0;
    while i < lines.len()
        invariant
            i <= lines@.len(),
            lines@.len() == spec_lines(out@).len(),
            forall|j: int| 0 <= j < lines@.len() ==> (#[trigger] lines@[j])@ == spec_lines(out@)[j],
            r@.len() == i,
            forall|j: int|
                0 <= j < i ==> {
                    &&& (#[trigger] r@[j]).timestamp@ == now@
                    &&& r@[j].level@ == "info"@
                    &&& (vstd::utf8::valid_utf8(spec_lines(out@)[j]) ==> r@[j].message@
                        == vstd::utf8::decode_utf8(spec_lines(out@)[j]))
                },
        decreases lines@.len() - i,
    {
        let message = crate::bytes::bytes_to_string(lines[i].as_slice());
        r.push(LogEntry { timestamp: now.to_owned(), level: "info".to_owned(), message });
        i = i + 1;
    }
    r
}

} // verus!
