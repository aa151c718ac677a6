//! Resource policy: translation of an agent's declared memory and CPU
//! into backend-native limit representations, and the one environment
//! construction rule shared by every backend: provider credential keys
//! first (reserved keys always win), then provider identity, mesh
//! network variables, secret markers, and the non-colliding
//! user-supplied entries, in insertion order.

use vstd::prelude::*;

verus! {

use crate::types::{AgentConfig, AgentConfigView, LlmProvider, ProviderView, spec_env_find};
use crate::bytes::str_eq;

/// Backend-native resource limits derived from an agent's declared
/// memory (in MB) and CPU (in millicores).
pub struct EngineLimits {
    /// Memory limit in bytes: exactly `memory_mb * 1024 * 1024`.
    pub memory_bytes: u64,
    /// CPU quota in nanocpu units: exactly `cpu_millicores * 1_000_000`.
    pub nano_cpus: u64,
}

/// CPU millicores to the engine's nanocpu quota unit.
/// One core (1000 millicores) is 1e9 nanocpus.
pub open spec fn spec_nano_cpus(cpu_millicores: u32) -> u64 {
    (cpu_millicores * 1_000_000) as u64
}

/// Memory in MB to bytes.
pub open spec fn spec_memory_bytes(memory_mb: u32) -> u64 {
    (memory_mb * 1024 * 1024) as u64
}

/// Derive the backend-native limits from declared memory and CPU.
///
/// The translation is exact: no rounding happens because the declared
/// values are integers (MB and millicores) and both conversion factors
/// are integer multiplications.
pub fn to_engine_limits(memory_mb: u32, cpu_millicores: u32) -> (r: EngineLimits)
    ensures
        r.memory_bytes == memory_mb * 1024 * 1024,
        r.nano_cpus == cpu_millicores * 1_000_000,
{
    EngineLimits {
        memory_bytes: (memory_mb as u64) * 1024 * 1024,
        nano_cpus: (cpu_millicores as u64) * 1_000_000,
    }
}

/// The derived CPU quota is monotonic in the declared CPU:
/// more cores never means a smaller quota.
pub proof fn lemma_cpu_quota_monotonic(a: u32, b: u32)
    requires
        a <= b,
    ensures
        spec_nano_cpus(a) <= spec_nano_cpus(b),
{
}

/// Mesh-network configuration injected into container environments
/// when the self-hosted mesh control plane is in use.
#[derive(Clone, Debug)]
pub struct MeshConfig {
    pub headscale_url: Option<String>,
    pub headscale_auth_key: Option<String>,
    pub headscale_namespace: Option<String>,
}

/// Spec-level value of a mesh configuration.
pub ghost struct MeshConfigView {
    pub headscale_url: Option<Seq<char>>,
    pub headscale_auth_key: Option<Seq<char>>,
    pub headscale_namespace: Option<Seq<char>>,
}

impl View for MeshConfig {
    type V = MeshConfigView;

    open spec fn view(&self) -> MeshConfigView {
        MeshConfigView {
            headscale_url: self.headscale_url.deep_view(),
            headscale_auth_key: self.headscale_auth_key.deep_view(),
            headscale_namespace: self.headscale_namespace.deep_view(),
        }
    }
}

/// The static provider-to-credential-key table: the one reserved
/// environment variable name each provider reads its credential from.
pub open spec fn spec_provider_key(p: ProviderView) -> Option<Seq<char>> {
    match p {
        ProviderView::OpenAI => Some("OPENAI_API_KEY"@),
        ProviderView::Anthropic => Some("ANTHROPIC_API_KEY"@),
        ProviderView::Gemini => Some("GEMINI_API_KEY"@),
        ProviderView::Kimi => Some("KIMI_API_KEY"@),
        ProviderView::KimiCode => Some("KIMI_CODE_API_KEY"@),
        ProviderView::Zai => Some("ZAI_API_KEY"@),
        ProviderView::Access => Some("ACCESS_API_KEY"@),
        ProviderView::Huggingface => Some("HF_TOKEN"@),
        ProviderView::Ollama => Some("OLLAMA_ENDPOINT"@),
        _ => None,
    }
}

/// The credential key name of a provider, if it has one.
pub fn provider_key(p: &LlmProvider) -> (r: Option<&'static str>)
    ensures
        match r {
            Some(k) => spec_provider_key(p@) == Some(k@),
            None => spec_provider_key(p@) is None,
        },
{
    match p {
        LlmProvider::OpenAI => Some("OPENAI_API_KEY"),
        LlmProvider::Anthropic => Some("ANTHROPIC_API_KEY"),
        LlmProvider::Gemini => Some("GEMINI_API_KEY"),
        LlmProvider::Kimi => Some("KIMI_API_KEY"),
        LlmProvider::KimiCode => Some("KIMI_CODE_API_KEY"),
        LlmProvider::Zai => Some("ZAI_API_KEY"),
        LlmProvider::Access => Some("ACCESS_API_KEY"),
        LlmProvider::Huggingface => Some("HF_TOKEN"),
        LlmProvider::Ollama => Some("OLLAMA_ENDPOINT"),
        _ => None,
    }
}

/// A reserved credential key name: one of the provider table's names.
pub open spec fn spec_is_reserved(k: Seq<char>) -> bool {
    ||| k == "OPENAI_API_KEY"@
    ||| k == "ANTHROPIC_API_KEY"@
    ||| k == "GEMINI_API_KEY"@
    ||| k == "KIMI_API_KEY"@
    ||| k == "KIMI_CODE_API_KEY"@
    ||| k == "ZAI_API_KEY"@
    ||| k == "ACCESS_API_KEY"@
    ||| k == "HF_TOKEN"@
    ||| k == "OLLAMA_ENDPOINT"@
}

/// Whether a key collides with a reserved credential key name.
pub fn is_reserved_key(k: &str) -> (r: bool)
    ensures
        r == spec_is_reserved(k@),
{
    str_eq(k, "OPENAI_API_KEY") || str_eq(k, "ANTHROPIC_API_KEY") || str_eq(k, "GEMINI_API_KEY")
        || str_eq(k, "KIMI_API_KEY") || str_eq(k, "KIMI_CODE_API_KEY") || str_eq(k, "ZAI_API_KEY")
        || str_eq(k, "ACCESS_API_KEY") || str_eq(k, "HF_TOKEN") || str_eq(k, "OLLAMA_ENDPOINT")
}

/// Every name the provider table hands out is reserved.
pub proof fn lemma_provider_key_reserved(p: ProviderView)
    ensures
        spec_provider_key(p) is Some ==> spec_is_reserved(spec_provider_key(p)->0),
{
}

/// The provider's name as passed to containers in `LLM_PROVIDER`.
pub open spec fn spec_provider_name(p: ProviderView) -> Seq<char> {
    match p {
        ProviderView::OpenAI => "OpenAI"@,
        ProviderView::Anthropic => "Anthropic"@,
        ProviderView::Gemini => "Gemini"@,
        ProviderView::Kimi => "Kimi"@,
        ProviderView::Zai => "Zai"@,
        ProviderView::Huggingface => "Huggingface"@,
        ProviderView::Ollama => "Ollama"@,
        ProviderView::LlamaCpp => "LlamaCpp"@,
        ProviderView::Vllm => "Vllm"@,
        ProviderView::Lmstudio => "Lmstudio"@,
        ProviderView::KimiCode => "KimiCode"@,
        ProviderView::Access => "Access"@,
        ProviderView::Custom { .. } => "Custom"@,
    }
}

/// The provider's `LLM_PROVIDER` value.
pub fn provider_name(p: &LlmProvider) -> (r: &'static str)
    ensures
        r@ == spec_provider_name(p@),
{
    match p {
        LlmProvider::OpenAI => "OpenAI",
        LlmProvider::Anthropic => "Anthropic",
        LlmProvider::Gemini => "Gemini",
        LlmProvider::Kimi => "Kimi",
        LlmProvider::Zai => "Zai",
        LlmProvider::Huggingface => "Huggingface",
        LlmProvider::Ollama => "Ollama",
        LlmProvider::LlamaCpp => "LlamaCpp",
        LlmProvider::Vllm => "Vllm",
        LlmProvider::Lmstudio => "Lmstudio",
        LlmProvider::KimiCode => "KimiCode",
        LlmProvider::Access => "Access",
        LlmProvider::Custom { .. } => "Custom",
    }
}

/// The mesh-network entries: server URL and pre-auth key when set, the
/// namespace with its fixed default, and the login-server indirection.
pub open spec fn spec_mesh_env(m: MeshConfigView) -> Seq<(Seq<char>, Seq<char>)> {
    (match m.headscale_url {
        Some(u) => seq![("HEADSCALE_URL"@, u)],
        None => Seq::empty(),
    }) + (match m.headscale_auth_key {
        Some(k) => seq![("HEADSCALE_AUTH_KEY"@, k)],
        None => Seq::empty(),
    }) + seq![
        (
            "HEADSCALE_NAMESPACE"@,
            match m.headscale_namespace {
                Some(ns) => ns,
                None => "claw-pen"@,
            },
        ),
        ("TAILSCALE_LOGIN_SERVER"@, "${HEADSCALE_URL}"@),
    ]
}

/// The secret markers: one `HAS_SECRET_<name>` flag per secret, so the
/// agent knows to read the secret from its mount path. Secret values
/// are never placed in the environment.
pub open spec fn spec_secret_markers(secrets: Seq<Seq<char>>) -> Seq<(Seq<char>, Seq<char>)> {
    secrets.map(|_i: int, s: Seq<char>| ("HAS_SECRET_"@ + s, "true"@))
}

/// The full ordered container environment of an agent:
/// the provider credential entry (taken from the user environment
/// under the provider table's reserved name), `LLM_PROVIDER`, the
/// optional `LLM_MODEL`, the mesh entries, the secret markers, and
/// every user entry whose key is not reserved, in insertion order.
pub open spec fn spec_build_environment(
    cfg: AgentConfigView,
    mesh: Option<MeshConfigView>,
) -> Seq<(Seq<char>, Seq<char>)> {
    let cred = match spec_provider_key(cfg.llm_provider) {
        Some(k) => {
            let at = spec_env_find(cfg.env_vars, k);
            if at >= 0 {
                seq![(k, cfg.env_vars[at].1)]
            } else {
                Seq::empty()
            }
        },
        None => Seq::empty(),
    };
    let base = seq![("LLM_PROVIDER"@, spec_provider_name(cfg.llm_provider))] + (
    match cfg.llm_model {
        Some(m) => seq![("LLM_MODEL"@, m)],
        None => Seq::empty(),
    });
    let meshpart = match mesh {
        Some(m) => spec_mesh_env(m),
        None => Seq::empty(),
    };
    let users = cfg.env_vars.filter(
        |kv: (Seq<char>, Seq<char>)| !spec_is_reserved(kv.0),
    );
    cred + base + meshpart + spec_secret_markers(cfg.secrets) + users
}

/// No reserved credential key collides with a fixed environment name
/// or a secret marker.
proof fn lemma_reserved_vs_fixed(k: Seq<char>)
    requires
        spec_is_reserved(k),
    ensures
        k != "LLM_PROVIDER"@,
        k != "LLM_MODEL"@,
        k != "HEADSCALE_URL"@,
        k != "HEADSCALE_AUTH_KEY"@,
        k != "HEADSCALE_NAMESPACE"@,
        k != "TAILSCALE_LOGIN_SERVER"@,
        forall|s: Seq<char>| k != "HAS_SECRET_"@ + s,
{
    reveal_strlit("OPENAI_API_KEY");
    reveal_strlit("ANTHROPIC_API_KEY");
    reveal_strlit("GEMINI_API_KEY");
    reveal_strlit("KIMI_API_KEY");
    reveal_strlit("KIMI_CODE_API_KEY");
    reveal_strlit("ZAI_API_KEY");
    reveal_strlit("ACCESS_API_KEY");
    reveal_strlit("HF_TOKEN");
    reveal_strlit("OLLAMA_ENDPOINT");
    reveal_strlit("LLM_PROVIDER");
    reveal_strlit("LLM_MODEL");
    reveal_strlit("HEADSCALE_URL");
    reveal_strlit("HEADSCALE_AUTH_KEY");
    reveal_strlit("HEADSCALE_NAMESPACE");
    reveal_strlit("TAILSCALE_LOGIN_SERVER");
    reveal_strlit("HAS_SECRET_");
    assert(k[0] == 'O' || k[0] == 'A' || k[0] == 'G' || k[0] == 'K' || k[0] == 'Z' || k[0]
        == 'H');
    assert("LLM_PROVIDER"@[0] == 'L' && "LLM_MODEL"@[0] == 'L');
    assert("TAILSCALE_LOGIN_SERVER"@[0] == 'T');
    assert("HEADSCALE_URL"@[1] == 'E' && "HEADSCALE_AUTH_KEY"@[1] == 'E'
        && "HEADSCALE_NAMESPACE"@[1] == 'E');
    if k == "HF_TOKEN"@ {
        assert(k[1] == 'F');
    } else {
        assert(k[0] != 'H');
    }
    assert forall|s: Seq<char>| k != "HAS_SECRET_"@ + s by {
        let m = "HAS_SECRET_"@ + s;
        assert(m[0] == 'H' && m[1] == 'A' && m[2] == 'S');
        if k == "HF_TOKEN"@ {
            assert(k[1] == 'F');
        } else {
            assert(k[0] != 'H');
        }
    }
}

/// Reserved keys always win: when the provider table names a reserved
/// key for the spec's provider and the user environment also holds an
/// entry under that key, the built environment holds exactly one entry
/// under that key — the one the merge step produced, at the head —
/// and the user-supplied duplicate is excluded.
pub proof fn lemma_reserved_key_wins(
    cfg: AgentConfigView,
    mesh: Option<MeshConfigView>,
    k: Seq<char>,
)
    requires
        spec_provider_key(cfg.llm_provider) == Some(k),
        spec_env_find(cfg.env_vars, k) >= 0,
    ensures
        spec_build_environment(cfg, mesh).len() > 0,
        spec_build_environment(cfg, mesh)[0] == (
            k,
            cfg.env_vars[spec_env_find(cfg.env_vars, k)].1,
        ),
        forall|j: int|
            1 <= j < spec_build_environment(cfg, mesh).len() ==> (#[trigger] spec_build_environment(
                cfg,
                mesh,
            )[j]).0 != k,
{
    let env = spec_build_environment(cfg, mesh);
    let at = spec_env_find(cfg.env_vars, k);
    let cred = seq![(k, cfg.env_vars[at].1)];
    let base = seq![("LLM_PROVIDER"@, spec_provider_name(cfg.llm_provider))] + (
    match cfg.llm_model {
        Some(m) => seq![("LLM_MODEL"@, m)],
        None => Seq::empty(),
    });
    let meshpart = match mesh {
        Some(m) => spec_mesh_env(m),
        None => Seq::<(Seq<char>, Seq<char>)>::empty(),
    };
    let markers = spec_secret_markers(cfg.secrets);
    let pred = |kv: (Seq<char>, Seq<char>)| !spec_is_reserved(kv.0);
    let users = cfg.env_vars.filter(pred);
    assert(env == cred + base + meshpart + markers + users);
    lemma_provider_key_reserved(cfg.llm_provider);
    lemma_reserved_vs_fixed(k);
    cfg.env_vars.filter_lemma(pred);
    assert forall|j: int| 1 <= j < env.len() implies (#[trigger] env[j]).0 != k by {
        let b0 = cred.len();
        let b1 = b0 + base.len();
        let b2 = b1 + meshpart.len();
        let b3 = b2 + markers.len();
        if j < b1 {
            assert(env[j] == base[j - b0]);
        } else if j < b2 {
            assert(env[j] == meshpart[j - b1]);
            if mesh is Some {
                let m = mesh->0;
                let urlpart: Seq<(Seq<char>, Seq<char>)> = match m.headscale_url {
                    Some(u) => seq![("HEADSCALE_URL"@, u)],
                    None => Seq::empty(),
                };
                let keypart: Seq<(Seq<char>, Seq<char>)> = match m.headscale_auth_key {
                    Some(kk) => seq![("HEADSCALE_AUTH_KEY"@, kk)],
                    None => Seq::empty(),
                };
                assert(meshpart[j - b1].0 == "HEADSCALE_URL"@ || meshpart[j - b1].0
                    == "HEADSCALE_AUTH_KEY"@ || meshpart[j - b1].0 == "HEADSCALE_NAMESPACE"@
                    || meshpart[j - b1].0 == "TAILSCALE_LOGIN_SERVER"@);
            }
        } else if j < b3 {
            assert(env[j] == markers[j - b2]);
            assert(markers[j - b2].0 == "HAS_SECRET_"@ + cfg.secrets[j - b2]);
        } else {
            assert(env[j] == users[j - b3]);
            assert(pred(users[j - b3]));
        }
    }
}

/// Append one entry, tracked at the deep-view level.
pub fn env_push(v: &mut Vec<(String, String)>, k: String, val: String)
    ensures
        final(v).deep_view() == old(v).deep_view().push((k@, val@)),
{
    let ghost kk = k@;
    let ghost vv = val@;
    v.push((k, val));
    proof {
        assert forall|j: int| 0 <= j < v@.len() implies #[trigger] v.deep_view()[j] == old(
            v,
        ).deep_view().push((kk, vv))[j] by {
            assert(v.deep_view()[j] == v@[j].deep_view());
            if j < v@.len() - 1 {
                assert(v@[j] == old(v)@[j]);
                assert(old(v).deep_view()[j] == old(v)@[j].deep_view());
            }
        }
        assert(v.deep_view() =~= old(v).deep_view().push((kk, vv)));
    }
}

/// Build the full ordered container environment of an agent, exactly
/// as `spec_build_environment` lays it down.
#[verifier::loop_isolation(false)]
pub fn build_environment(config: &AgentConfig, mesh: Option<&MeshConfig>) -> (r: Vec<
    (String, String),
>)
    ensures
        r.deep_view() == spec_build_environment(
            config@,
            match mesh {
                Some(m) => Some(m@),
                None => None,
            },
        ),
{
    let ghost meshv: Option<MeshConfigView> = match mesh {
        Some(m) => Some(m@),
        None => None,
    };
    let ghost goal = spec_build_environment(config@, meshv);
    let mut r: Vec<(String, String)> = Vec::new();
    // provider credential entry: the reserved name from the provider
    // table, its value taken from the user environment
    if let Some(k) = provider_key(&config.llm_provider) {
        if let Some(at) = crate::types::env_find(&config.env_vars, k) {
            env_push(&mut r, k.to_owned(), config.env_vars[at].1.clone());
        }
    }
    let ghost cred = r.deep_view();
    // provider identity and model
    env_push(
        &mut r,
        "LLM_PROVIDER".to_owned(),
        provider_name(&config.llm_provider).to_owned(),
    );
    if let Some(m) = &config.llm_model {
        env_push(&mut r, "LLM_MODEL".to_owned(), m.clone());
    }
    let ghost with_base = r.deep_view();
    // mesh-network entries
    if let Some(mc) = mesh {
        if let Some(u) = &mc.headscale_url {
            env_push(&mut r, "HEADSCALE_URL".to_owned(), u.clone());
        }
        if let Some(key) = &mc.headscale_auth_key {
            env_push(&mut r, "HEADSCALE_AUTH_KEY".to_owned(), key.clone());
        }
        match &mc.headscale_namespace {
            Some(ns) => env_push(&mut r, "HEADSCALE_NAMESPACE".to_owned(), ns.clone()),
            None => env_push(&mut r, "HEADSCALE_NAMESPACE".to_owned(), "claw-pen".to_owned()),
        }
        env_push(
            &mut r,
            "TAILSCALE_LOGIN_SERVER".to_owned(),
            "${HEADSCALE_URL}".to_owned(),
        );
    }
    let ghost with_mesh = r.deep_view();
    proof {
        let meshpart = match meshv {
            Some(m) => spec_mesh_env(m),
            None => Seq::empty(),
        };
        assert(with_mesh =~= with_base + meshpart);
    }
    // secret markers
    let ghost sdv = config.secrets.deep_view();
    let mut i: usize = 0;
    proof {
        assert(spec_secret_markers(sdv.subrange(0, 0)) =~= Seq::empty());
        assert(r.deep_view() =~= with_mesh + spec_secret_markers(sdv.subrange(0, 0)));
    }
    while i < config.secrets.len()
        invariant
            i <= sdv.len(),
            sdv.len() == config.secrets@.len(),
            forall|j: int| 0 <= j < sdv.len() ==> sdv[j] == config.secrets@[j]@,
            r.deep_view() == with_mesh + spec_secret_markers(sdv.subrange(0, i as int)),
        decreases sdv.len() - i,
    {
        let mut key = String::from_str("HAS_SECRET_");
        key.append(config.secrets[i].as_str());
        env_push(&mut r, key, "true".to_owned());
        proof {
            assert(spec_secret_markers(sdv.subrange(0, i + 1)) =~= spec_secret_markers(
                sdv.subrange(0, i as int),
            ).push(("HAS_SECRET_"@ + sdv[i as int], "true"@)));
            assert(r.deep_view() =~= with_mesh + spec_secret_markers(
                sdv.subrange(0, i + 1),
            ));
        }
        i = i + 1;
    }
    let ghost with_markers = r.deep_view();
    proof {
        assert(sdv.subrange(0, sdv.len() as int) =~= sdv);
    }
    // user-supplied entries whose keys are not reserved
    let ghost edv = config.env_vars.deep_view();
    let pred = Ghost(|kv: (Seq<char>, Seq<char>)| !spec_is_reserved(kv.0));
    let mut i: usize = 0;
    proof {
        reveal(Seq::filter);
        assert(edv.subrange(0, 0) =~= Seq::<(Seq<char>, Seq<char>)>::empty());
        assert(r.deep_view() =~= with_markers + edv.subrange(0, 0).filter(pred@));
    }
    while i < config.env_vars.len()
        invariant
            i <= edv.len(),
            edv.len() == config.env_vars@.len(),
            forall|j: int|
                0 <= j < edv.len() ==> edv[j] == (
                    config.env_vars@[j].0@,
                    config.env_vars@[j].1@,
                ),
            r.deep_view() == with_markers + edv.subrange(0, i as int).filter(pred@),
        decreases edv.len() - i,
    {
        let ghost pre = edv.subrange(0, i as int);
        let ghost cur = edv.subrange(0, i + 1);
        proof {
            reveal(Seq::filter);
            assert(cur.drop_last() =~= pre);
            assert(cur.last() == edv[i as int]);
        }
        if !is_reserved_key(config.env_vars[i].0.as_str()) {
            env_push(&mut r, config.env_vars[i].0.clone(), config.env_vars[i].1.clone());
            proof {
                assert(cur.filter(pred@) =~= pre.filter(pred@).push(edv[i as int]));
                assert(r.deep_view() =~= with_markers + cur.filter(pred@));
            }
        } else {
            proof {
                assert(cur.filter(pred@) =~= pre.filter(pred@));
            }
        }
        i = i + 1;
    }
    proof {
        assert(edv.subrange(0, edv.len() as int) =~= edv);
        assert(r.deep_view() =~= goal);
    }
    r
}

} // verus!
