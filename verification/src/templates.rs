//! Agent templates: named starting configurations. Loading the
//! template file is the embedding program's concern; the registry and
//! the conversion to an agent configuration are verified here.

use vstd::prelude::*;

verus! {

use crate::bytes::str_eq;
use crate::types::{AgentConfig, LlmProvider, RestartPolicy};

/// The configuration slice of a template.
#[derive(Clone, Debug)]
pub struct TemplateConfig {
    pub llm_provider: Option<String>,
    pub llm_model: Option<String>,
    pub memory_mb: u32,
    pub cpu_millicores: u32,
}

/// One named template.
#[derive(Clone, Debug)]
pub struct Template {
    pub name: String,
    pub description: Option<String>,
    pub config: TemplateConfig,
    pub env: Vec<(String, String)>,
}

/// The loaded templates, by name.
pub struct TemplateRegistry {
    pub templates: Vec<(String, Template)>,
}

impl TemplateRegistry {
    /// An empty registry; the embedding program fills it from disk.
    pub fn new() -> (r: Self)
        ensures
            r.templates@.len() == 0,
    {
        TemplateRegistry { templates: Vec::new() }
    }

    /// The first template under a name.
    pub fn get(&self, name: &str) -> (r: Option<&Template>)
        ensures
            r is None ==> forall|j: int|
                0 <= j < self.templates@.len() ==> (#[trigger] self.templates@[j]).0@ != name@,
    {
        let mut i: usize = 0;
        while i < self.templates.len()
            invariant
                i <= self.templates@.len(),
                forall|j: int| 0 <= j < i ==> (#[trigger] self.templates@[j]).0@ != name@,
            decreases self.templates@.len() - i,
        {
            if str_eq(self.templates[i].0.as_str(), name) {
                return Some(&self.templates[i].1);
            }
            i = i + 1;
        }
        None
    }

    /// All templates, in load order.
    pub fn list(&self) -> (r: &Vec<(String, Template)>)
        ensures
            r == &self.templates,
    {
        &self.templates
    }
}

/// The agent configuration a template stands for: its provider parsed,
/// its model, resources and environment taken over, everything else
/// the default.
pub fn config_from_template(t: &Template) -> (r: AgentConfig)
    ensures
        r.memory_mb == t.config.memory_mb,
        r.cpu_millicores == t.config.cpu_millicores,
        r.llm_model.deep_view() == t.config.llm_model.deep_view(),
        r.env_vars.deep_view() == t.env.deep_view(),
        t.config.llm_provider is None ==> r.llm_provider@ == crate::types::ProviderView::OpenAI,
        r.secrets@.len() == 0,
        r.preset is None,
        r.restart_policy == RestartPolicy::Never,
        r.health_check is None,
        r.volumes@.len() == 0,
{
    let provider = match &t.config.llm_provider {
        Some(p) => crate::api::parse_provider(p.as_str()),
        None => LlmProvider::OpenAI,
    };
    AgentConfig {
        llm_provider: provider,
        llm_model: crate::types::clone_opt_string(&t.config.llm_model),
        memory_mb: t.config.memory_mb,
        cpu_millicores: t.config.cpu_millicores,
        env_vars: crate::types::clone_env(&t.env),
        secrets: Vec::new(),
        preset: None,
        restart_policy: RestartPolicy::Never,
        health_check: None,
        volumes: Vec::new(),
    }
}

} // verus!
