//! The lifecycle contract every backend adapter implements, in two
//! halves. The executable half interprets raw engine outcomes — exit
//! status and diagnostic text — under the shared propagation policy:
//! `stop` and `delete` treat a missing target as success, `create`
//! surfaces a duplicate name as a conflict, `start` surfaces a missing
//! target. The ghost half is the engine model the laws are stated
//! over: what create, start, stop, delete and log retrieval do to an
//! engine, whichever backend drives it.

use vstd::prelude::*;

verus! {

use crate::bytes::{spec_lower, spec_contains, spec_trim, to_ascii_lower, contains_ascii,
    trim_bytes};
use crate::errors::{EngineError, EngineErrorView};
use crate::types::AgentStatus;

/// Diagnostic text that reports the target as missing.
pub open spec fn spec_reports_missing(sl: Seq<u8>) -> bool {
    ||| spec_contains(sl, "not found"@.map(|_i: int, c: char| c as u8))
    ||| spec_contains(sl, "no such"@.map(|_i: int, c: char| c as u8))
}

/// Diagnostic text that reports the target as already stopped.
pub open spec fn spec_reports_stopped(sl: Seq<u8>) -> bool {
    ||| spec_contains(sl, "not running"@.map(|_i: int, c: char| c as u8))
    ||| spec_contains(sl, "already stopped"@.map(|_i: int, c: char| c as u8))
}

/// Diagnostic text that reports a duplicate name.
pub open spec fn spec_reports_conflict(sl: Seq<u8>) -> bool {
    ||| spec_contains(sl, "exists"@.map(|_i: int, c: char| c as u8))
    ||| spec_contains(sl, "in use"@.map(|_i: int, c: char| c as u8))
    ||| spec_contains(sl, "conflict"@.map(|_i: int, c: char| c as u8))
}

/// Whether the diagnostic text reports the target as missing.
pub fn reports_missing(stderr: &[u8]) -> (r: bool)
    ensures
        r == spec_reports_missing(spec_lower(stderr@)),
{
    proof {
        reveal_strlit("not found");
        reveal_strlit("no such");
        assert(vstd::string::is_ascii("not found"));
        assert(vstd::string::is_ascii("no such"));
    }
    let lowered = to_ascii_lower(stderr);
    contains_ascii(lowered.as_slice(), "not found") || contains_ascii(
        lowered.as_slice(),
        "no such",
    )
}

/// Interpret a raw `stop` outcome. Stopping an already-stopped or
/// missing container is a no-op success — callers tear down
/// unconditionally — so only a genuine engine failure surfaces.
pub fn interpret_stop_outcome(exit_ok: bool, stderr: &[u8]) -> (r: Result<(), EngineError>)
    ensures
        r is Ok <==> (exit_ok || spec_reports_missing(spec_lower(stderr@))
            || spec_reports_stopped(spec_lower(stderr@))),
        r is Err ==> r->Err_0@ matches EngineErrorView::Engine(_),
{
    if exit_ok {
        return Ok(());
    }
    proof {
        reveal_strlit("not running");
        reveal_strlit("already stopped");
        assert(vstd::string::is_ascii("not running"));
        assert(vstd::string::is_ascii("already stopped"));
    }
    let lowered = to_ascii_lower(stderr);
    if reports_missing(stderr) || contains_ascii(lowered.as_slice(), "not running")
        || contains_ascii(lowered.as_slice(), "already stopped") {
        return Ok(());
    }
    Err(EngineError::Engine(crate::bytes::bytes_to_string(stderr)))
}

/// Interpret a raw `delete` outcome. Deleting a missing container is a
/// no-op success; anything else that failed surfaces.
pub fn interpret_delete_outcome(exit_ok: bool, stderr: &[u8]) -> (r: Result<(), EngineError>)
    ensures
        r is Ok <==> (exit_ok || spec_reports_missing(spec_lower(stderr@))),
        r is Err ==> r->Err_0@ matches EngineErrorView::Engine(_),
{
    if exit_ok {
        return Ok(());
    }
    if reports_missing(stderr) {
        return Ok(());
    }
    Err(EngineError::Engine(crate::bytes::bytes_to_string(stderr)))
}

/// Interpret a raw `start` outcome: a missing target surfaces as
/// `NotFound`, anything else that failed as an engine failure.
pub fn interpret_start_outcome(exit_ok: bool, stderr: &[u8]) -> (r: Result<(), EngineError>)
    ensures
        r is Ok <==> exit_ok,
        !exit_ok && spec_reports_missing(spec_lower(stderr@)) ==> r->Err_0@
            == EngineErrorView::NotFound,
        !exit_ok && !spec_reports_missing(spec_lower(stderr@)) ==> r->Err_0@ matches
            EngineErrorView::Engine(_),
{
    if exit_ok {
        return Ok(());
    }
    if reports_missing(stderr) {
        return Err(EngineError::NotFound);
    }
    Err(EngineError::Engine(crate::bytes::bytes_to_string(stderr)))
}

/// Interpret a raw `create` outcome: success hands back the identifier
/// the engine printed, trimmed; a duplicate name surfaces as
/// `NameConflict`, never as silent success.
pub fn interpret_create_outcome(exit_ok: bool, stdout: &[u8], stderr: &[u8]) -> (r: Result<
    Vec<u8>,
    EngineError,
>)
    ensures
        r is Ok <==> exit_ok,
        r matches Ok(id) ==> id@ == spec_trim(stdout@),
        !exit_ok && spec_reports_conflict(spec_lower(stderr@)) ==> r->Err_0@
            == EngineErrorView::NameConflict,
        !exit_ok && !spec_reports_conflict(spec_lower(stderr@)) ==> r->Err_0@ matches
            EngineErrorView::Engine(_),
{
    if exit_ok {
        return Ok(trim_bytes(stdout));
    }
    proof {
        reveal_strlit("exists");
        reveal_strlit("in use");
        reveal_strlit("conflict");
        assert(vstd::string::is_ascii("exists"));
        assert(vstd::string::is_ascii("in use"));
        assert(vstd::string::is_ascii("conflict"));
    }
    let lowered = to_ascii_lower(stderr);
    if contains_ascii(lowered.as_slice(), "exists") || contains_ascii(
        lowered.as_slice(),
        "in use",
    ) || contains_ascii(lowered.as_slice(), "conflict") {
        return Err(EngineError::NameConflict);
    }
    Err(EngineError::Engine(crate::bytes::bytes_to_string(stderr)))
}

// ---------------------------------------------------------------------
// The engine model: the lifecycle contract as a transition system.
// ---------------------------------------------------------------------

/// One container as the lifecycle contract sees it.
pub ghost struct ContainerModel {
    pub name: Seq<char>,
    pub state: AgentStatus,
    pub logs: Seq<Seq<char>>,
}

/// An engine: its containers, keyed by the identifier the engine
/// assigned at creation.
pub ghost struct EngineModel {
    pub containers: Map<Seq<char>, ContainerModel>,
}

/// What a raw engine call reported, before the adapter interprets it.
pub ghost enum RawOutcome {
    Done,
    Missing,
    AlreadyStopped,
    NameTaken,
}

impl EngineModel {
    /// Some container already carries this name.
    pub open spec fn has_name(self, name: Seq<char>) -> bool {
        exists|id: Seq<char>|
            self.containers.contains_key(id) && (#[trigger] self.containers[id]).name == name
    }

    /// Create: registers the container stopped, never started; a
    /// duplicate name fails with a conflict rather than succeeding
    /// silently.
    pub open spec fn create(self, id: Seq<char>, name: Seq<char>) -> (EngineModel, RawOutcome) {
        if self.has_name(name) || self.containers.contains_key(id) {
            (self, RawOutcome::NameTaken)
        } else {
            (
                EngineModel {
                    containers: self.containers.insert(
                        id,
                        ContainerModel { name, state: AgentStatus::Stopped, logs: Seq::empty() },
                    ),
                },
                RawOutcome::Done,
            )
        }
    }

    /// Start: fails on a missing identifier, otherwise runs.
    pub open spec fn start(self, id: Seq<char>) -> (EngineModel, RawOutcome) {
        if !self.containers.contains_key(id) {
            (self, RawOutcome::Missing)
        } else {
            (
                EngineModel {
                    containers: self.containers.insert(
                        id,
                        ContainerModel {
                            name: self.containers[id].name,
                            state: AgentStatus::Running,
                            logs: self.containers[id].logs,
                        },
                    ),
                },
                RawOutcome::Done,
            )
        }
    }

    /// Stop: a missing or already-stopped container reports so; a
    /// running one stops within the bounded graceful window.
    pub open spec fn stop(self, id: Seq<char>) -> (EngineModel, RawOutcome) {
        if !self.containers.contains_key(id) {
            (self, RawOutcome::Missing)
        } else if self.containers[id].state == AgentStatus::Stopped {
            (self, RawOutcome::AlreadyStopped)
        } else {
            (
                EngineModel {
                    containers: self.containers.insert(
                        id,
                        ContainerModel {
                            name: self.containers[id].name,
                            state: AgentStatus::Stopped,
                            logs: self.containers[id].logs,
                        },
                    ),
                },
                RawOutcome::Done,
            )
        }
    }

    /// Delete: removes the container whatever its state, stopping it
    /// first; a missing identifier reports so.
    pub open spec fn delete(self, id: Seq<char>) -> (EngineModel, RawOutcome) {
        if !self.containers.contains_key(id) {
            (self, RawOutcome::Missing)
        } else {
            (EngineModel { containers: self.containers.remove(id) }, RawOutcome::Done)
        }
    }

    /// Log retrieval: at most `tail` most-recent records, fewer if the
    /// history is shorter, and the empty sequence — not an error —
    /// when no log source exists yet.
    pub open spec fn logs(self, id: Seq<char>, tail: int) -> Seq<Seq<char>> {
        if !self.containers.contains_key(id) {
            Seq::empty()
        } else {
            let all = self.containers[id].logs;
            if all.len() <= tail {
                all
            } else {
                all.subrange(all.len() - tail, all.len() as int)
            }
        }
    }
}

/// The adapter's reading of a raw `stop` outcome: stopping a missing
/// or already-stopped container is success.
pub open spec fn spec_stop_accepted(raw: RawOutcome) -> bool {
    raw == RawOutcome::Done || raw == RawOutcome::Missing || raw == RawOutcome::AlreadyStopped
}

/// The adapter's reading of a raw `delete` outcome: deleting a missing
/// container is success.
pub open spec fn spec_delete_accepted(raw: RawOutcome) -> bool {
    raw == RawOutcome::Done || raw == RawOutcome::Missing
}

/// Stop is idempotent: a second `stop` right after a first one never
/// errors, whatever the engine held before and whichever backend it
/// is — the second call lands on a stopped or missing container, and
/// both report outcomes the adapter accepts as success.
pub proof fn lemma_stop_twice_never_errors(e: EngineModel, id: Seq<char>)
    ensures
        spec_stop_accepted(e.stop(id).0.stop(id).1),
        spec_stop_accepted(e.stop(id).1) ==> spec_stop_accepted(e.stop(id).0.stop(id).1),
{
}

/// Delete on a nonexistent identifier is a no-op success, not an
/// error: the engine is unchanged and the adapter reports success.
pub proof fn lemma_delete_missing_is_noop(e: EngineModel, id: Seq<char>)
    requires
        !e.containers.contains_key(id),
    ensures
        spec_delete_accepted(e.delete(id).1),
        e.delete(id).0 == e,
{
}

/// Two creates under one name: when the first succeeded, the second
/// reports a name conflict and leaves the engine unchanged — so of two
/// racing creates, exactly one succeeds.
pub proof fn lemma_create_duplicate_name(
    e: EngineModel,
    id1: Seq<char>,
    id2: Seq<char>,
    name: Seq<char>,
)
    requires
        e.create(id1, name).1 == RawOutcome::Done,
    ensures
        e.create(id1, name).0.create(id2, name).1 == RawOutcome::NameTaken,
        e.create(id1, name).0.create(id2, name).0 == e.create(id1, name).0,
{
    let e1 = e.create(id1, name).0;
    assert(e1.containers.contains_key(id1) && e1.containers[id1].name == name);
}

/// Creation always yields a stopped container: `create` registers, it
/// never starts.
pub proof fn lemma_create_yields_stopped(e: EngineModel, id: Seq<char>, name: Seq<char>)
    requires
        e.create(id, name).1 == RawOutcome::Done,
    ensures
        e.create(id, name).0.containers[id].state == AgentStatus::Stopped,
{
}

/// Log retrieval on an identifier the engine has no record of yields
/// the empty sequence, never an error, whatever the tail bound.
pub proof fn lemma_logs_missing_empty(e: EngineModel, id: Seq<char>, tail: int)
    requires
        !e.containers.contains_key(id),
    ensures
        e.logs(id, tail) == Seq::<Seq<char>>::empty(),
{
}

/// Log retrieval never yields more than the tail bound.
pub proof fn lemma_logs_bounded(e: EngineModel, id: Seq<char>, tail: int)
    requires
        tail >= 0,
    ensures
        e.logs(id, tail).len() <= tail,
{
}

} // verus!
