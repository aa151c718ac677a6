//! Process configuration: deployment mode, network backend, container
//! runtime selection and model-server endpoints. Loading the values
//! from files or the environment is the embedding program's concern;
//! the types and their defaults live here.

use vstd::prelude::*;

verus! {

/// How the host runs the isolation runtime.
#[derive(Clone, Copy, Debug, PartialEq, Eq, Structural)]
pub enum DeploymentMode {
    WindowsWsl,
    LinuxNative,
    AllWindows,
}

impl Default for DeploymentMode {
    fn default() -> (r: Self)
        ensures
            r == DeploymentMode::WindowsWsl,
    {
        DeploymentMode::WindowsWsl
    }
}

/// The overlay network agents join.
#[derive(Clone, Copy, Debug, PartialEq, Eq, Structural)]
pub enum NetworkBackend {
    Tailscale,
    Wireguard,
    Zerotier,
    Headscale,
    Local,
}

impl Default for NetworkBackend {
    fn default() -> (r: Self)
        ensures
            r == NetworkBackend::Tailscale,
    {
        NetworkBackend::Tailscale
    }
}

/// The globally configured container runtime.
#[derive(Clone, Copy, Debug, PartialEq, Eq, Structural)]
pub enum ContainerRuntimeType {
    Docker,
    Exo,
}

impl Default for ContainerRuntimeType {
    fn default() -> (r: Self)
        ensures
            r == ContainerRuntimeType::Docker,
    {
        ContainerRuntimeType::Docker
    }
}

/// Address and default model of one local model server.
#[derive(Clone, Debug)]
pub struct ModelServerConfig {
    pub endpoint: String,
    pub default_model: Option<String>,
}

/// The local model servers the orchestrator knows about.
#[derive(Clone, Debug)]
pub struct ModelServers {
    pub ollama: Option<ModelServerConfig>,
    pub llama_cpp: Option<ModelServerConfig>,
    pub vllm: Option<ModelServerConfig>,
    pub lm_studio: Option<ModelServerConfig>,
}

/// Address of the external agent bridge, if one is configured.
#[derive(Clone, Debug)]
pub struct AndorBridgeConfig {
    pub url: String,
    pub register_on_create: Option<bool>,
}

/// The whole process configuration.
#[derive(Clone, Debug)]
pub struct Config {
    pub deployment_mode: DeploymentMode,
    pub network_backend: NetworkBackend,
    pub runtime_socket: String,
    pub container_runtime: ContainerRuntimeType,
    pub exo_path: Option<String>,
    pub tailscale_auth_key: Option<String>,
    pub headscale_url: Option<String>,
    pub headscale_auth_key: Option<String>,
    pub headscale_namespace: Option<String>,
    pub model_servers: ModelServers,
    pub andor_bridge: Option<AndorBridgeConfig>,
}

impl Config {
    /// The mesh-network slice of the configuration, as the policy layer
    /// takes it. `Some` exactly when the mesh backend is in use.
    pub fn mesh_config(&self) -> (r: Option<crate::policy::MeshConfig>)
        ensures
            self.network_backend == NetworkBackend::Headscale <==> r is Some,
            r matches Some(m) ==> m.headscale_url.deep_view() == self.headscale_url.deep_view()
                && m.headscale_auth_key.deep_view() == self.headscale_auth_key.deep_view()
                && m.headscale_namespace.deep_view() == self.headscale_namespace.deep_view(),
    {
        if self.network_backend == NetworkBackend::Headscale {
            Some(
                crate::policy::MeshConfig {
                    headscale_url: crate::types::clone_opt_string(&self.headscale_url),
                    headscale_auth_key: crate::types::clone_opt_string(&self.headscale_auth_key),
                    headscale_namespace: crate::types::clone_opt_string(&self.headscale_namespace),
                },
            )
        } else {
            None
        }
    }
}

} // verus!
