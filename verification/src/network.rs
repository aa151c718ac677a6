//! Network identity backends: the overlay network an agent container
//! joins. Each backend derives a node identity from the container
//! identifier; the actual network calls are the embedding program's
//! concern, so every derivation here is a pure function of its inputs.

use vstd::prelude::*;

verus! {

use vstd::string::StrSliceExecFns;
use vstd::string::StringExecFns;
use crate::errors::EngineError;

/// A network identity collaborator: assigns an identity to a
/// container, looks up its mesh address, and removes it again.
pub trait NetworkBackend {
    /// The identity this backend derives from a container identifier.
    spec fn spec_identity(&self, id: Seq<char>) -> Seq<char>;

    /// Assign a network identity to the container.
    fn assign_identity(&self, container_id: &str) -> (r: Result<String, EngineError>)
        requires
            container_id@.len() >= 8,
            vstd::string::is_ascii(container_id),
        ensures
            r matches Ok(s) ==> s@ == self.spec_identity(container_id@),
    ;

    /// The container's mesh address, when one is known.
    fn get_ip(&self, container_id: &str) -> (r: Result<Option<String>, EngineError>);

    /// Remove the container from the network.
    fn remove_identity(&self, container_id: &str) -> (r: Result<(), EngineError>)
        ensures
            r is Ok,
    ;
}

/// The managed-service mesh backend.
pub struct TailscaleBackend {
    pub auth_key: Option<String>,
}

/// The static-tunnel backend.
pub struct WireguardBackend;

/// The managed-switch backend.
pub struct ZerotierBackend {
    pub network_id: String,
}

/// The self-hosted mesh control plane: the same client as the managed
/// service, pointed at an own server with a pre-auth key, under a
/// namespace that defaults to a fixed literal.
pub struct HeadscaleBackend {
    pub url: String,
    pub auth_key: String,
    pub namespace: String,
}

/// No overlay network: the engine's own bridge addressing.
pub struct LocalBackend;

impl NetworkBackend for TailscaleBackend {
    open spec fn spec_identity(&self, id: Seq<char>) -> Seq<char> {
        "ts-"@ + id.subrange(0, 8)
    }

    fn assign_identity(&self, container_id: &str) -> (r: Result<String, EngineError>) {
        let prefix = container_id.substring_ascii(0, 8);
        Ok(String::from_str("ts-").concat(prefix))
    }

    fn get_ip(&self, _container_id: &str) -> (r: Result<Option<String>, EngineError>) {
        Ok(None)
    }

    fn remove_identity(&self, _container_id: &str) -> (r: Result<(), EngineError>) {
        Ok(())
    }
}

impl NetworkBackend for WireguardBackend {
    open spec fn spec_identity(&self, id: Seq<char>) -> Seq<char> {
        "wg-"@ + id.subrange(0, 8)
    }

    fn assign_identity(&self, container_id: &str) -> (r: Result<String, EngineError>) {
        let prefix = container_id.substring_ascii(0, 8);
        Ok(String::from_str("wg-").concat(prefix))
    }

    fn get_ip(&self, _container_id: &str) -> (r: Result<Option<String>, EngineError>) {
        Ok(None)
    }

    fn remove_identity(&self, _container_id: &str) -> (r: Result<(), EngineError>) {
        Ok(())
    }
}

impl NetworkBackend for ZerotierBackend {
    open spec fn spec_identity(&self, id: Seq<char>) -> Seq<char> {
        "zt-"@ + id.subrange(0, 8)
    }

    fn assign_identity(&self, container_id: &str) -> (r: Result<String, EngineError>) {
        let prefix = container_id.substring_ascii(0, 8);
        Ok(String::from_str("zt-").concat(prefix))
    }

    fn get_ip(&self, _container_id: &str) -> (r: Result<Option<String>, EngineError>) {
        Ok(None)
    }

    fn remove_identity(&self, _container_id: &str) -> (r: Result<(), EngineError>) {
        Ok(())
    }
}

impl NetworkBackend for HeadscaleBackend {
    open spec fn spec_identity(&self, id: Seq<char>) -> Seq<char> {
        "hs-"@ + self.namespace@ + "-"@ + id.subrange(0, 8)
    }

    fn assign_identity(&self, container_id: &str) -> (r: Result<String, EngineError>) {
        let prefix = container_id.substring_ascii(0, 8);
        let mut s = String::from_str("hs-");
        s.append(self.namespace.as_str());
        s.append("-");
        Ok(s.concat(prefix))
    }

    fn get_ip(&self, _container_id: &str) -> (r: Result<Option<String>, EngineError>) {
        Ok(None)
    }

    fn remove_identity(&self, _container_id: &str) -> (r: Result<(), EngineError>) {
        Ok(())
    }
}

impl NetworkBackend for LocalBackend {
    open spec fn spec_identity(&self, id: Seq<char>) -> Seq<char> {
        "local"@
    }

    fn assign_identity(&self, _container_id: &str) -> (r: Result<String, EngineError>) {
        Ok(String::from_str("local"))
    }

    /// The engine's own bridge address: a placeholder host octet
    /// derived from the identifier length.
    fn get_ip(&self, container_id: &str) -> (r: Result<Option<String>, EngineError>) {
        let octet = (container_id.as_bytes().len() % 254) as u64;
        let digits = crate::bytes::format_u64(octet);
        proof {
            crate::bytes::lemma_u64_digits_ascii(octet as int);
        }
        let tail = crate::bytes::ascii_str(digits.as_slice());
        let mut s = String::from_str("172.17.0.");
        s.append(tail.as_str());
        Ok(Some(s))
    }

    fn remove_identity(&self, _container_id: &str) -> (r: Result<(), EngineError>) {
        Ok(())
    }
}

/// The closed set of network backends a configuration can select.
pub enum NetworkClient {
    Tailscale(TailscaleBackend),
    Wireguard(WireguardBackend),
    Zerotier(ZerotierBackend),
    Headscale(HeadscaleBackend),
    Local(LocalBackend),
}

impl NetworkClient {
    /// Assign a network identity through whichever backend is selected.
    pub fn assign_identity(&self, container_id: &str) -> (r: Result<String, EngineError>)
        requires
            container_id@.len() >= 8,
            vstd::string::is_ascii(container_id),
        ensures
            r matches Ok(s) ==> s@ == (match self {
                NetworkClient::Tailscale(b) => b.spec_identity(container_id@),
                NetworkClient::Wireguard(b) => b.spec_identity(container_id@),
                NetworkClient::Zerotier(b) => b.spec_identity(container_id@),
                NetworkClient::Headscale(b) => b.spec_identity(container_id@),
                NetworkClient::Local(b) => b.spec_identity(container_id@),
            }),
    {
        match self {
            NetworkClient::Tailscale(b) => b.assign_identity(container_id),
            NetworkClient::Wireguard(b) => b.assign_identity(container_id),
            NetworkClient::Zerotier(b) => b.assign_identity(container_id),
            NetworkClient::Headscale(b) => b.assign_identity(container_id),
            NetworkClient::Local(b) => b.assign_identity(container_id),
        }
    }

    /// Remove the container's identity; removal never fails.
    pub fn remove_identity(&self, container_id: &str) -> (r: Result<(), EngineError>)
        ensures
            r is Ok,
    {
        match self {
            NetworkClient::Tailscale(b) => b.remove_identity(container_id),
            NetworkClient::Wireguard(b) => b.remove_identity(container_id),
            NetworkClient::Zerotier(b) => b.remove_identity(container_id),
            NetworkClient::Headscale(b) => b.remove_identity(container_id),
            NetworkClient::Local(b) => b.remove_identity(container_id),
        }
    }
}

/// Select a network backend by its configured name; an unknown name
/// degrades to the local backend.
pub fn create_backend(backend_type: &str, auth_key: Option<String>) -> (r: NetworkClient)
    ensures
        backend_type@ == "tailscale"@ ==> r is Tailscale,
        backend_type@ == "wireguard"@ ==> r is Wireguard,
        backend_type@ == "zerotier"@ ==> r is Zerotier,
        backend_type@ != "tailscale"@ && backend_type@ != "wireguard"@ && backend_type@
            != "zerotier"@ ==> r is Local,
{
    proof {
        reveal_strlit("tailscale");
        reveal_strlit("wireguard");
        reveal_strlit("zerotier");
        assert("tailscale"@[0] == 't' && "wireguard"@[0] == 'w' && "zerotier"@[0] == 'z');
    }
    if crate::bytes::str_eq(backend_type, "tailscale") {
        NetworkClient::Tailscale(TailscaleBackend { auth_key })
    } else if crate::bytes::str_eq(backend_type, "wireguard") {
        NetworkClient::Wireguard(WireguardBackend)
    } else if crate::bytes::str_eq(backend_type, "zerotier") {
        NetworkClient::Zerotier(ZerotierBackend { network_id: String::new() })
    } else {
        NetworkClient::Local(LocalBackend)
    }
}

/// Build the self-hosted mesh backend; the namespace defaults to the
/// fixed literal when none is configured.
pub fn create_headscale_backend(url: String, auth_key: String, namespace: Option<String>) -> (r:
    HeadscaleBackend)
    ensures
        r.url@ == url@,
        r.auth_key@ == auth_key@,
        match namespace {
            Some(ns) => r.namespace@ == ns@,
            None => r.namespace@ == "claw-pen"@,
        },
{
    let ns = match namespace {
        Some(ns) => ns,
        None => "claw-pen".to_owned(),
    };
    HeadscaleBackend { url, auth_key, namespace: ns }
}

} // verus!
