//! The external agent-bridge collaborator: registration payloads for
//! the bridge that mirrors agents to an outside chat surface. The
//! HTTP calls are the embedding program's concern; a registration
//! failure is a partial failure, never a blocker.

use vstd::prelude::*;

verus! {

use vstd::string::StringSliceAdditionalSpecFns;
use crate::bytes::{spec_lower, spec_chars_of, spec_all_ascii, to_ascii_lower, ascii_str};
use crate::types::AgentContainer;

/// The payload that registers one agent with the bridge.
#[derive(Clone, Debug)]
pub struct AgentRegistration {
    pub agent_id: String,
    pub display_name: String,
    /// Chat triggers; the lower-cased agent name by default.
    pub triggers: Vec<String>,
    pub emoji: Option<String>,
}

/// Build the bridge registration of an agent: its identifier, its
/// display name, and the lower-cased name as the one trigger.
pub fn registration_for(agent: &AgentContainer) -> (r: AgentRegistration)
    ensures
        r.agent_id@ == agent.id@,
        r.display_name@ == agent.name@,
        r.triggers@.len() == 1,
        r.emoji is None,
        spec_all_ascii(vstd::utf8::encode_utf8(agent.name@)) ==> r.triggers@[0]@
            == spec_chars_of(spec_lower(vstd::utf8::encode_utf8(agent.name@))),
{
    let lowered = to_ascii_lower(agent.name.as_str().as_bytes());
    proof {
        if spec_all_ascii(vstd::utf8::encode_utf8(agent.name@)) {
            assert forall|j: int| 0 <= j < lowered@.len() implies #[trigger] lowered@[j]
                < 128 by {
                assert(lowered@[j] == crate::bytes::spec_lower_byte(
                    vstd::utf8::encode_utf8(agent.name@)[j],
                ));
            }
        }
    }
    let trigger = ascii_str(lowered.as_slice());
    let mut triggers: Vec<String> = Vec::new();
    triggers.push(trigger);
    AgentRegistration {
        agent_id: agent.id.clone(),
        display_name: agent.name.clone(),
        triggers,
        emoji: None,
    }
}

} // verus!
