//! Snapshot placement: where an agent's filesystem snapshots live on
//! the host. The copying itself is the embedding program's concern.

use vstd::prelude::*;

verus! {

/// The snapshot store: one directory per agent, one subdirectory per
/// snapshot.
pub struct SnapshotManager {
    /// Host directory the per-agent snapshot directories live under.
    pub base_path: String,
}

impl SnapshotManager {
    /// The store under its fixed host directory.
    pub fn new() -> (r: Self)
        ensures
            r.base_path@ == "/var/lib/claw-pen/snapshots"@,
    {
        SnapshotManager { base_path: "/var/lib/claw-pen/snapshots".to_owned() }
    }

    /// The host directory that holds one agent's snapshots.
    pub fn agent_path(&self, agent_id: &str) -> (r: String)
        ensures
            r@ == self.base_path@ + "/"@ + agent_id@,
    {
        let mut p = self.base_path.clone();
        p.append("/");
        p.append(agent_id);
        p
    }

    /// The host directory of one snapshot.
    pub fn snapshot_path(&self, agent_id: &str, snapshot_id: &str) -> (r: String)
        ensures
            r@ == self.base_path@ + "/"@ + agent_id@ + "/"@ + snapshot_id@,
    {
        let mut p = self.agent_path(agent_id);
        p.append("/");
        p.append(snapshot_id);
        p
    }
}

} // verus!
