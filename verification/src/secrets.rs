//! Secrets placement: where an agent's secrets live on the host and
//! where they are mounted inside a container. Secret values never
//! enter an environment; the policy layer only exposes markers. The
//! file reads and writes are the embedding program's concern.

use vstd::prelude::*;

verus! {

/// The secrets store: one directory per agent under a base path.
pub struct SecretsManager {
    /// Host directory the per-agent secret directories live under.
    pub base_path: String,
}

impl SecretsManager {
    /// The store under its fixed host directory.
    pub fn new() -> (r: Self)
        ensures
            r.base_path@ == "/var/lib/claw-pen/secrets"@,
    {
        SecretsManager { base_path: "/var/lib/claw-pen/secrets".to_owned() }
    }

    /// The host directory that holds one agent's secrets.
    pub fn agent_path(&self, agent_id: &str) -> (r: String)
        ensures
            r@ == self.base_path@ + "/"@ + agent_id@,
    {
        let mut p = self.base_path.clone();
        p.append("/");
        p.append(agent_id);
        p
    }

    /// The path secrets are mounted under inside every container; the
    /// consuming agent reads `HAS_SECRET_<name>`-marked secrets here.
    pub fn mount_path(&self) -> (r: String)
        ensures
            r@ == "/run/secrets"@,
    {
        String::from_str("/run/secrets")
    }
}

} // verus!
