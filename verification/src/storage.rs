//! The on-disk shape of an agent record and the catalog edits the
//! persistence layer performs. Reading and writing the file is the
//! embedding program's concern; the list edits and the conversions are
//! verified here.

use vstd::prelude::*;

verus! {

use crate::bytes::{str_eq, format_u64, ascii_str, spec_chars_of, spec_u64_digits};
use crate::types::{AgentConfig, AgentContainer, AgentStatus, BackendKind};

/// The storage form of an agent: the status as text, with creation and
/// update timestamps.
#[derive(Clone, Debug)]
pub struct StoredAgent {
    pub id: String,
    pub name: String,
    pub status: String,
    pub config: AgentConfig,
    pub created_at: String,
    pub updated_at: String,
    /// Per-agent backend pin, if any.
    pub runtime: Option<BackendKind>,
}

/// Spec-level value of a stored agent.
pub ghost struct StoredAgentView {
    pub id: Seq<char>,
    pub name: Seq<char>,
    pub status: Seq<char>,
    pub config: crate::types::AgentConfigView,
    pub created_at: Seq<char>,
    pub updated_at: Seq<char>,
    pub runtime: Option<BackendKind>,
}

impl View for StoredAgent {
    type V = StoredAgentView;

    open spec fn view(&self) -> StoredAgentView {
        StoredAgentView {
            id: self.id@,
            name: self.name@,
            status: self.status@,
            config: self.config@,
            created_at: self.created_at@,
            updated_at: self.updated_at@,
            runtime: self.runtime,
        }
    }
}

impl DeepView for StoredAgent {
    type V = StoredAgentView;

    open spec fn deep_view(&self) -> StoredAgentView {
        self.view()
    }
}

/// The text a lifecycle state is stored under.
pub open spec fn spec_status_str(s: AgentStatus) -> Seq<char> {
    match s {
        AgentStatus::Running => "Running"@,
        AgentStatus::Stopped => "Stopped"@,
        AgentStatus::Starting => "Starting"@,
        AgentStatus::Stopping => "Stopping"@,
        AgentStatus::Error => "Error"@,
    }
}

/// Render a lifecycle state as its storage text.
pub fn status_to_str(s: AgentStatus) -> (r: &'static str)
    ensures
        r@ == spec_status_str(s),
{
    match s {
        AgentStatus::Running => "Running",
        AgentStatus::Stopped => "Stopped",
        AgentStatus::Starting => "Starting",
        AgentStatus::Stopping => "Stopping",
        AgentStatus::Error => "Error",
    }
}

/// The lifecycle state a stored status text stands for; unknown text
/// degrades to `Stopped`.
pub open spec fn spec_status_from_str(s: Seq<char>) -> AgentStatus {
    if s == "running"@ {
        AgentStatus::Running
    } else if s == "stopped"@ {
        AgentStatus::Stopped
    } else if s == "starting"@ {
        AgentStatus::Starting
    } else if s == "stopping"@ {
        AgentStatus::Stopping
    } else if s == "error"@ {
        AgentStatus::Error
    } else {
        AgentStatus::Stopped
    }
}

/// Parse a stored status text.
pub fn status_from_str(s: &str) -> (r: AgentStatus)
    ensures
        r == spec_status_from_str(s@),
{
    if str_eq(s, "running") {
        AgentStatus::Running
    } else if str_eq(s, "stopped") {
        AgentStatus::Stopped
    } else if str_eq(s, "starting") {
        AgentStatus::Starting
    } else if str_eq(s, "stopping") {
        AgentStatus::Stopping
    } else if str_eq(s, "error") {
        AgentStatus::Error
    } else {
        AgentStatus::Stopped
    }
}

/// A current-time stamp in whole seconds, rendered in decimal.
pub fn seconds_stamp(now_secs: u64) -> (r: String)
    ensures
        r@ == spec_chars_of(spec_u64_digits(now_secs as int)),
{
    let digits = format_u64(now_secs);
    proof {
        crate::bytes::lemma_u64_digits_ascii(now_secs as int);
    }
    ascii_str(digits.as_slice())
}

/// The storage form of a roster record, stamped with the given time.
pub fn to_stored_agent(container: &AgentContainer, now_secs: u64) -> (r: StoredAgent)
    ensures
        r.id@ == container.id@,
        r.name@ == container.name@,
        r.status@ == spec_status_str(container.status),
        r.config@ == container.config@,
        r.created_at@ == spec_chars_of(spec_u64_digits(now_secs as int)),
        r.updated_at@ == spec_chars_of(spec_u64_digits(now_secs as int)),
        r.runtime == container.runtime,
{
    let now = seconds_stamp(now_secs);
    StoredAgent {
        id: container.id.clone(),
        name: container.name.clone(),
        status: status_to_str(container.status).to_owned(),
        config: container.config.clone_config(),
        created_at: now.clone(),
        updated_at: now,
        runtime: container.runtime,
    }
}

/// The roster record a stored agent stands for.
pub fn stored_to_container(stored: StoredAgent) -> (r: AgentContainer)
    ensures
        r.id@ == stored.id@,
        r.name@ == stored.name@,
        r.status == spec_status_from_str(stored.status@),
        r.config@ == stored.config@,
        r.runtime == stored.runtime,
        r.tailscale_ip is None,
        r.resource_usage is None,
        r.project is None,
        r.tags@.len() == 0,
        r.restart_policy == crate::types::RestartPolicy::Never,
        r.health_status is None,
{
    AgentContainer {
        id: stored.id,
        name: stored.name,
        status: status_from_str(stored.status.as_str()),
        config: stored.config,
        tailscale_ip: None,
        resource_usage: None,
        project: None,
        tags: Vec::new(),
        restart_policy: crate::types::RestartPolicy::Never,
        health_status: None,
        runtime: stored.runtime,
    }
}

/// First index of an identifier in the catalog, or -1.
pub open spec fn spec_stored_find(agents: Seq<StoredAgentView>, id: Seq<char>) -> int
    decreases agents.len(),
{
    if agents.len() == 0 {
        -1
    } else if agents[0].id == id {
        0
    } else {
        let rest = spec_stored_find(agents.subrange(1, agents.len() as int), id);
        if rest < 0 {
            -1
        } else {
            rest + 1
        }
    }
}

/// `spec_stored_find` stays in bounds and lands on the identifier.
pub proof fn lemma_stored_find(agents: Seq<StoredAgentView>, id: Seq<char>)
    ensures
        spec_stored_find(agents, id) >= 0 ==> spec_stored_find(agents, id) < agents.len()
            && agents[spec_stored_find(agents, id)].id == id,
        spec_stored_find(agents, id) < 0 ==> forall|j: int|
            0 <= j < agents.len() ==> (#[trigger] agents[j]).id != id,
    decreases agents.len(),
{
    if agents.len() > 0 {
        let rest = agents.subrange(1, agents.len() as int);
        lemma_stored_find(rest, id);
        assert forall|j: int| 1 <= j < agents.len() implies agents[j] == rest[j - 1] by {}
    }
}

/// If the first `upto` entries miss the identifier and `upto` (when in
/// range) hits it, then `upto` is the find result.
pub proof fn lemma_stored_find_prefix(agents: Seq<StoredAgentView>, id: Seq<char>, upto: int)
    requires
        0 <= upto <= agents.len(),
        forall|j: int| 0 <= j < upto ==> (#[trigger] agents[j]).id != id,
    ensures
        upto < agents.len() && agents[upto].id == id ==> spec_stored_find(agents, id) == upto,
        upto == agents.len() ==> spec_stored_find(agents, id) < 0,
    decreases agents.len(),
{
    if agents.len() > 0 && upto > 0 {
        let rest = agents.subrange(1, agents.len() as int);
        assert forall|j: int| 0 <= j < upto - 1 implies (#[trigger] rest[j]).id != id by {
            assert(rest[j] == agents[j + 1]);
        }
        lemma_stored_find_prefix(rest, id, upto - 1);
        if upto < agents.len() {
            assert(rest[upto - 1] == agents[upto]);
        }
    }
}

/// Add or update one agent in the catalog: the entry with the same
/// identifier is replaced in place, a new identifier is appended.
#[verifier::loop_isolation(false)]
pub fn upsert_agent(agents: &mut Vec<StoredAgent>, agent: StoredAgent)
    ensures
        final(agents).deep_view() == (if spec_stored_find(old(agents).deep_view(), agent.id@)
            >= 0 {
            old(agents).deep_view().update(
                spec_stored_find(old(agents).deep_view(), agent.id@),
                agent@,
            )
        } else {
            old(agents).deep_view().push(agent@)
        }),
{
    let ghost dv = agents.deep_view();
    let ghost av = agent@;
    let mut i: usize = 0;
    while i < agents.len()
        invariant
            i <= agents@.len(),
            dv == agents.deep_view(),
            dv.len() == agents@.len(),
            forall|j: int| 0 <= j < dv.len() ==> dv[j] == agents@[j]@,
            forall|j: int| 0 <= j < i ==> (#[trigger] dv[j]).id != av.id,
        decreases agents@.len() - i,
    {
        if str_eq(agents[i].id.as_str(), agent.id.as_str()) {
            proof {
                lemma_stored_find_prefix(dv, av.id, i as int);
            }
            agents.set(i, agent);
            proof {
                assert(agents.deep_view() =~= dv.update(i as int, av));
            }
            return ;
        }
        i = i + 1;
    }
    proof {
        lemma_stored_find_prefix(dv, av.id, dv.len() as int);
    }
    agents.push(agent);
    proof {
        assert(agents.deep_view() =~= dv.push(av));
    }
}

/// Remove one agent from the catalog. Removing an identifier the
/// catalog does not hold leaves it unchanged.
#[verifier::loop_isolation(false)]
pub fn remove_agent(agents: &mut Vec<StoredAgent>, id: &str)
    ensures
        final(agents).deep_view() == old(agents).deep_view().filter(
            |a: StoredAgentView| a.id != id@,
        ),
{
    let ghost dv = agents.deep_view();
    let ghost pred = |a: StoredAgentView| a.id != id@;
    let mut kept: Vec<StoredAgent> = Vec::new();
    let mut i: usize = 0;
    proof {
        reveal(Seq::filter);
        assert(dv.subrange(0, 0) =~= Seq::<StoredAgentView>::empty());
        assert(kept.deep_view() =~= dv.subrange(0, 0).filter(pred));
    }
    while i < agents.len()
        invariant
            i <= agents@.len(),
            dv == agents.deep_view(),
            dv.len() == agents@.len(),
            forall|j: int| 0 <= j < dv.len() ==> dv[j] == agents@[j]@,
            kept.deep_view() == dv.subrange(0, i as int).filter(pred),
        decreases agents@.len() - i,
    {
        let ghost pre = dv.subrange(0, i as int);
        let ghost cur = dv.subrange(0, i + 1);
        proof {
            reveal(Seq::filter);
            assert(cur.drop_last() =~= pre);
            assert(cur.last() == dv[i as int]);
        }
        if !str_eq(agents[i].id.as_str(), id) {
            let copy = clone_stored(&agents[i]);
            push_stored(&mut kept, copy);
            proof {
                assert(cur.filter(pred) =~= pre.filter(pred).push(dv[i as int]));
                assert(kept.deep_view() =~= cur.filter(pred));
            }
        } else {
            proof {
                assert(cur.filter(pred) =~= pre.filter(pred));
            }
        }
        i = i + 1;
    }
    proof {
        assert(dv.subrange(0, dv.len() as int) =~= dv);
    }
    *agents = kept;
}

/// Append one stored agent, tracked at the deep-view level.
pub fn push_stored(v: &mut Vec<StoredAgent>, a: StoredAgent)
    ensures
        final(v).deep_view() == old(v).deep_view().push(a@),
{
    let ghost av = a@;
    v.push(a);
    proof {
        assert forall|j: int| 0 <= j < v@.len() implies #[trigger] v.deep_view()[j] == old(
            v,
        ).deep_view().push(av)[j] by {
            assert(v.deep_view()[j] == v@[j]@);
            if j < v@.len() - 1 {
                assert(v@[j] == old(v)@[j]);
                assert(old(v).deep_view()[j] == old(v)@[j]@);
            }
        }
        assert(v.deep_view() =~= old(v).deep_view().push(av));
    }
}

/// A copy of a stored agent, equal at the view level.
pub fn clone_stored(a: &StoredAgent) -> (r: StoredAgent)
    ensures
        r@ == a@,
{
    StoredAgent {
        id: a.id.clone(),
        name: a.name.clone(),
        status: a.status.clone(),
        config: a.config.clone_config(),
        created_at: a.created_at.clone(),
        updated_at: a.updated_at.clone(),
        runtime: a.runtime,
    }
}

} // verus!
