//! The roster — the authoritative in-memory collection of agent
//! records — and the one-shot startup reconciliation that populates
//! it: a join of the persisted catalog with the live containers the
//! active backend reports. The join never deletes a live container
//! and never silently drops a persisted record.
//!
//! The embedding program holds the roster behind a multi-reader,
//! single-writer lock and calls the edits here with the write lock
//! held only for the in-memory mutation: engine calls happen before
//! or after the lock is taken, never inside it.

use vstd::prelude::*;

verus! {

use crate::bytes::str_eq;
use crate::storage::{spec_stored_find, lemma_stored_find, StoredAgent, StoredAgentView};
use crate::types::{AgentContainer, AgentContainerView, AgentStatus};

/// First index of an identifier in a record list, or -1.
pub open spec fn spec_roster_find(l: Seq<AgentContainerView>, id: Seq<char>) -> int
    decreases l.len(),
{
    if l.len() == 0 {
        -1
    } else if l[0].id == id {
        0
    } else {
        let rest = spec_roster_find(l.subrange(1, l.len() as int), id);
        if rest < 0 {
            -1
        } else {
            rest + 1
        }
    }
}

/// `spec_roster_find` stays in bounds, lands on the identifier, and is
/// the first such index.
pub proof fn lemma_roster_find(l: Seq<AgentContainerView>, id: Seq<char>)
    ensures
        spec_roster_find(l, id) >= 0 ==> spec_roster_find(l, id) < l.len() && l[spec_roster_find(
            l,
            id,
        )].id == id,
        spec_roster_find(l, id) < 0 ==> forall|j: int|
            0 <= j < l.len() ==> (#[trigger] l[j]).id != id,
        forall|j: int| 0 <= j < spec_roster_find(l, id) ==> (#[trigger] l[j]).id != id,
    decreases l.len(),
{
    if l.len() > 0 {
        let rest = l.subrange(1, l.len() as int);
        lemma_roster_find(rest, id);
        assert forall|j: int| 1 <= j < l.len() implies l[j] == rest[j - 1] by {}
    }
}

/// If the first `upto` records miss the identifier and `upto` (when in
/// range) hits it, then `upto` is the find result.
pub proof fn lemma_roster_find_prefix(l: Seq<AgentContainerView>, id: Seq<char>, upto: int)
    requires
        0 <= upto <= l.len(),
        forall|j: int| 0 <= j < upto ==> (#[trigger] l[j]).id != id,
    ensures
        upto < l.len() && l[upto].id == id ==> spec_roster_find(l, id) == upto,
        upto == l.len() ==> spec_roster_find(l, id) < 0,
    decreases l.len(),
{
    if l.len() > 0 && upto > 0 {
        let rest = l.subrange(1, l.len() as int);
        assert forall|j: int| 0 <= j < upto - 1 implies (#[trigger] rest[j]).id != id by {
            assert(rest[j] == l[j + 1]);
        }
        lemma_roster_find_prefix(rest, id, upto - 1);
        if upto < l.len() {
            assert(rest[upto - 1] == l[upto]);
        }
    }
}

/// First index of an identifier in the roster.
pub fn find_agent(roster: &Vec<AgentContainer>, id: &str) -> (r: Option<usize>)
    ensures
        match r {
            Some(i) => i < roster@.len() && spec_roster_find(roster.deep_view(), id@) == i,
            None => spec_roster_find(roster.deep_view(), id@) < 0,
        },
{
    let ghost dv = roster.deep_view();
    let mut i: usize = 0;
    while i < roster.len()
        invariant
            i <= roster@.len(),
            dv == roster.deep_view(),
            dv.len() == roster@.len(),
            forall|j: int| 0 <= j < dv.len() ==> dv[j] == roster@[j]@,
            forall|j: int| 0 <= j < i ==> (#[trigger] dv[j]).id != id@,
        decreases roster@.len() - i,
    {
        if str_eq(roster[i].id.as_str(), id) {
            proof {
                lemma_roster_find_prefix(dv, id@, i as int);
            }
            return Some(i);
        }
        i = i + 1;
    }
    proof {
        lemma_roster_find_prefix(dv, id@, dv.len() as int);
    }
    None
}

/// Append one record, tracked at the deep-view level.
pub fn push_record(v: &mut Vec<AgentContainer>, rec: AgentContainer)
    ensures
        final(v).deep_view() == old(v).deep_view().push(rec@),
{
    let ghost rv = rec@;
    v.push(rec);
    proof {
        assert forall|j: int| 0 <= j < v@.len() implies #[trigger] v.deep_view()[j] == old(
            v,
        ).deep_view().push(rv)[j] by {
            assert(v.deep_view()[j] == v@[j]@);
            if j < v@.len() - 1 {
                assert(v@[j] == old(v)@[j]);
                assert(old(v).deep_view()[j] == old(v)@[j]@);
            }
        }
        assert(v.deep_view() =~= old(v).deep_view().push(rv));
    }
}

/// Remove one record from the roster. Removing an identifier the
/// roster does not hold leaves it unchanged.
#[verifier::loop_isolation(false)]
pub fn remove_record(roster: &mut Vec<AgentContainer>, id: &str)
    ensures
        final(roster).deep_view() == old(roster).deep_view().filter(
            |r: AgentContainerView| r.id != id@,
        ),
{
    let ghost dv = roster.deep_view();
    let ghost pred = |r: AgentContainerView| r.id != id@;
    let mut kept: Vec<AgentContainer> = Vec::new();
    let mut i: usize = 0;
    proof {
        reveal(Seq::filter);
        assert(kept.deep_view() =~= dv.subrange(0, 0).filter(pred));
    }
    while i < roster.len()
        invariant
            i <= roster@.len(),
            dv == roster.deep_view(),
            dv.len() == roster@.len(),
            forall|j: int| 0 <= j < dv.len() ==> dv[j] == roster@[j]@,
            kept.deep_view() == dv.subrange(0, i as int).filter(pred),
        decreases roster@.len() - i,
    {
        let ghost pre = dv.subrange(0, i as int);
        let ghost cur = dv.subrange(0, i + 1);
        proof {
            reveal(Seq::filter);
            assert(cur.drop_last() =~= pre);
            assert(cur.last() == dv[i as int]);
        }
        if !str_eq(roster[i].id.as_str(), id) {
            let copy = roster[i].clone_record();
            push_record(&mut kept, copy);
            proof {
                assert(cur.filter(pred) =~= pre.filter(pred).push(dv[i as int]));
                assert(kept.deep_view() =~= cur.filter(pred));
            }
        } else {
            proof {
                assert(cur.filter(pred) =~= pre.filter(pred));
            }
        }
        i = i + 1;
    }
    proof {
        assert(dv.subrange(0, dv.len() as int) =~= dv);
    }
    *roster = kept;
}

/// The record a persisted agent is adopted under: its spec and name
/// kept, the state taken from the live container when the engine still
/// knows the identifier, forced to `Stopped` when it does not.
pub open spec fn spec_merged(s: StoredAgentView, l: Seq<AgentContainerView>) -> AgentContainerView {
    AgentContainerView {
        id: s.id,
        name: s.name,
        status: if spec_roster_find(l, s.id) >= 0 {
            l[spec_roster_find(l, s.id)].status
        } else {
            AgentStatus::Stopped
        },
        config: s.config,
        tailscale_ip: None,
        resource_usage: None,
        project: None,
        tags: Seq::empty(),
        restart_policy: crate::types::RestartPolicy::Never,
        health_status: None,
        runtime: s.runtime,
    }
}

/// The reconciliation join: one record per persisted agent, with its
/// state adopted from the live list where the identifier is live, and
/// one newly discovered record per live container no persisted record
/// matched.
pub open spec fn spec_reconcile(
    p: Seq<StoredAgentView>,
    l: Seq<AgentContainerView>,
) -> Seq<AgentContainerView> {
    p.map(|_i: int, s: StoredAgentView| spec_merged(s, l)) + l.filter(
        |c: AgentContainerView| spec_stored_find(p, c.id) < 0,
    )
}

/// First index of an identifier in the live list, with its status.
fn find_live_status(live: &Vec<AgentContainer>, id: &str) -> (r: Option<AgentStatus>)
    ensures
        match r {
            Some(st) => spec_roster_find(live.deep_view(), id@) >= 0 && st == live.deep_view()[
                spec_roster_find(live.deep_view(), id@)
            ].status,
            None => spec_roster_find(live.deep_view(), id@) < 0,
        },
{
    match find_agent(live, id) {
        Some(i) => {
            proof {
                lemma_roster_find(live.deep_view(), id@);
            }
            Some(live[i].status)
        },
        None => None,
    }
}

/// Whether the persisted catalog holds an identifier.
fn stored_has_id(stored: &Vec<StoredAgent>, id: &str) -> (r: bool)
    ensures
        r == (spec_stored_find(stored.deep_view(), id@) >= 0),
{
    let ghost dv = stored.deep_view();
    let mut i: usize = 0;
    while i < stored.len()
        invariant
            i <= stored@.len(),
            dv == stored.deep_view(),
            dv.len() == stored@.len(),
            forall|j: int| 0 <= j < dv.len() ==> dv[j] == stored@[j]@,
            forall|j: int| 0 <= j < i ==> (#[trigger] dv[j]).id != id@,
        decreases stored@.len() - i,
    {
        if str_eq(stored[i].id.as_str(), id) {
            proof {
                crate::storage::lemma_stored_find_prefix(dv, id@, i as int);
            }
            return true;
        }
        i = i + 1;
    }
    proof {
        crate::storage::lemma_stored_find_prefix(dv, id@, dv.len() as int);
    }
    false
}

/// Reconcile the persisted catalog with the live container list into
/// the authoritative roster. Runs once at startup; it is a join, not a
/// mutation — no live container is deleted and no persisted record is
/// dropped.
#[verifier::loop_isolation(false)]
pub fn reconcile(stored: &Vec<StoredAgent>, live: &Vec<AgentContainer>) -> (r: Vec<
    AgentContainer,
>)
    ensures
        r.deep_view() == spec_reconcile(stored.deep_view(), live.deep_view()),
{
    let ghost pdv = stored.deep_view();
    let ghost ldv = live.deep_view();
    let ghost f = |_i: int, s: StoredAgentView| spec_merged(s, ldv);
    let ghost pred = |c: AgentContainerView| spec_stored_find(pdv, c.id) < 0;
    let mut r: Vec<AgentContainer> = Vec::new();
    let mut i: usize = 0;
    proof {
        assert(r.deep_view() =~= pdv.map(f).subrange(0, 0));
    }
    while i < stored.len()
        invariant
            i <= stored@.len(),
            pdv.len() == stored@.len(),
            forall|j: int| 0 <= j < pdv.len() ==> pdv[j] == stored@[j]@,
            r.deep_view() == pdv.map(f).subrange(0, i as int),
        decreases stored@.len() - i,
    {
        let s = &stored[i];
        let status = match find_live_status(live, s.id.as_str()) {
            Some(st) => st,
            None => AgentStatus::Stopped,
        };
        let rec = AgentContainer {
            id: s.id.clone(),
            name: s.name.clone(),
            status,
            config: s.config.clone_config(),
            tailscale_ip: None,
            resource_usage: None,
            project: None,
            tags: Vec::new(),
            restart_policy: crate::types::RestartPolicy::Never,
            health_status: None,
            runtime: s.runtime,
        };
        proof {
            assert(rec@.tags =~= Seq::<Seq<char>>::empty());
            assert(rec@ == spec_merged(pdv[i as int], ldv));
            assert(pdv.map(f)[i as int] == spec_merged(pdv[i as int], ldv));
        }
        push_record(&mut r, rec);
        proof {
            assert(r.deep_view() =~= pdv.map(f).subrange(0, i + 1));
        }
        i = i + 1;
    }
    proof {
        assert(pdv.map(f).subrange(0, pdv.len() as int) =~= pdv.map(f));
    }
    let ghost head = r.deep_view();
    let mut k: usize = 0;
    proof {
        reveal(Seq::filter);
        assert(r.deep_view() =~= head + ldv.subrange(0, 0).filter(pred));
    }
    while k < live.len()
        invariant
            k <= live@.len(),
            ldv.len() == live@.len(),
            forall|j: int| 0 <= j < ldv.len() ==> ldv[j] == live@[j]@,
            r.deep_view() == head + ldv.subrange(0, k as int).filter(pred),
        decreases live@.len() - k,
    {
        let ghost pre = ldv.subrange(0, k as int);
        let ghost cur = ldv.subrange(0, k + 1);
        proof {
            reveal(Seq::filter);
            assert(cur.drop_last() =~= pre);
            assert(cur.last() == ldv[k as int]);
        }
        if !stored_has_id(stored, live[k].id.as_str()) {
            let copy = live[k].clone_record();
            push_record(&mut r, copy);
            proof {
                assert(cur.filter(pred) =~= pre.filter(pred).push(ldv[k as int]));
                assert(r.deep_view() =~= head + cur.filter(pred));
            }
        } else {
            proof {
                assert(cur.filter(pred) =~= pre.filter(pred));
            }
        }
        k = k + 1;
    }
    proof {
        assert(ldv.subrange(0, ldv.len() as int) =~= ldv);
        assert(r.deep_view() =~= spec_reconcile(pdv, ldv));
    }
    r
}

/// Every element of a filtered record list comes from the input list.
proof fn lemma_filter_element_in(
    l: Seq<AgentContainerView>,
    pred: spec_fn(AgentContainerView) -> bool,
    i: int,
)
    requires
        0 <= i < l.filter(pred).len(),
    ensures
        exists|k: int| 0 <= k < l.len() && l[k] == l.filter(pred)[i],
    decreases l.len(),
{
    reveal(Seq::filter);
    if l.len() > 0 {
        let d = l.drop_last();
        let fd = d.filter(pred);
        if pred(l.last()) && i == l.filter(pred).len() - 1 {
            assert(l[l.len() - 1] == l.filter(pred)[i]);
        } else {
            lemma_filter_element_in(d, pred, i);
            let k = choose|k: int| 0 <= k < d.len() && d[k] == d.filter(pred)[i];
            assert(l[k] == l.filter(pred)[i]);
        }
    }
}

/// Filtering keeps pairwise-distinct identifiers distinct.
proof fn lemma_filter_distinct_ids(
    l: Seq<AgentContainerView>,
    pred: spec_fn(AgentContainerView) -> bool,
)
    requires
        forall|i: int, j: int|
            0 <= i < j < l.len() ==> (#[trigger] l[i]).id != (#[trigger] l[j]).id,
    ensures
        forall|i: int, j: int|
            0 <= i < j < l.filter(pred).len() ==> (#[trigger] l.filter(pred)[i]).id != (
            #[trigger] l.filter(pred)[j]).id,
    decreases l.len(),
{
    reveal(Seq::filter);
    if l.len() > 0 {
        let d = l.drop_last();
        let fd = d.filter(pred);
        assert forall|i: int, j: int|
            0 <= i < j < d.len() implies (#[trigger] d[i]).id != (#[trigger] d[j]).id by {
            assert(d[i] == l[i] && d[j] == l[j]);
        }
        lemma_filter_distinct_ids(d, pred);
        if pred(l.last()) {
            assert forall|i: int, j: int|
                0 <= i < j < l.filter(pred).len() implies (#[trigger] l.filter(pred)[i]).id != (
                #[trigger] l.filter(pred)[j]).id by {
                if j == l.filter(pred).len() - 1 {
                    assert(l.filter(pred)[j] == l.last());
                    assert(l.filter(pred)[i] == fd[i]);
                    lemma_filter_element_in(d, pred, i);
                    let k = choose|k: int| 0 <= k < d.len() && d[k] == fd[i];
                    assert(l[k] == fd[i]);
                    assert(l[k].id != l[l.len() - 1].id);
                } else {
                    assert(l.filter(pred)[i] == fd[i] && l.filter(pred)[j] == fd[j]);
                }
            }
        }
    }
}

/// The persisted half of the join: every persisted record survives,
/// in order, with its spec and name, and with its state sourced from
/// the live list exactly when its identifier is live.
pub proof fn lemma_reconcile_keeps_persisted(p: Seq<StoredAgentView>, l: Seq<AgentContainerView>)
    ensures
        spec_reconcile(p, l).len() >= p.len(),
        forall|j: int|
            0 <= j < p.len() ==> #[trigger] spec_reconcile(p, l)[j] == spec_merged(p[j], l),
        forall|j: int|
            0 <= j < p.len() ==> (#[trigger] spec_reconcile(p, l)[j]).id == p[j].id
                && spec_reconcile(p, l)[j].name == p[j].name && spec_reconcile(p, l)[j].config
                == p[j].config,
        forall|j: int|
            0 <= j < p.len() ==> (#[trigger] spec_reconcile(p, l)[j]).status == (
            if spec_roster_find(l, p[j].id) >= 0 {
                l[spec_roster_find(l, p[j].id)].status
            } else {
                AgentStatus::Stopped
            }),
{
    let f = |_i: int, s: StoredAgentView| spec_merged(s, l);
    assert forall|j: int| 0 <= j < p.len() implies #[trigger] spec_reconcile(p, l)[j]
        == spec_merged(p[j], l) by {
        assert(spec_reconcile(p, l)[j] == p.map(f)[j]);
    }
}

/// The live half of the join: every live container's identifier
/// appears in the result — reconciliation never deletes a live
/// container.
pub proof fn lemma_reconcile_keeps_live(p: Seq<StoredAgentView>, l: Seq<AgentContainerView>)
    ensures
        forall|k: int|
            0 <= k < l.len() ==> exists|m: int|
                0 <= m < spec_reconcile(p, l).len() && (#[trigger] spec_reconcile(p, l)[m]).id == (
                #[trigger] l[k]).id,
{
    let r = spec_reconcile(p, l);
    let f = |_i: int, s: StoredAgentView| spec_merged(s, l);
    let pred = |c: AgentContainerView| spec_stored_find(p, c.id) < 0;
    let fl = l.filter(pred);
    assert forall|k: int| 0 <= k < l.len() implies exists|m: int|
        0 <= m < r.len() && (#[trigger] r[m]).id == (#[trigger] l[k]).id by {
        lemma_stored_find(p, l[k].id);
        if spec_stored_find(p, l[k].id) >= 0 {
            let j = spec_stored_find(p, l[k].id);
            assert(r[j] == p.map(f)[j]);
            assert(r[j].id == l[k].id);
        } else {
            l.lemma_filter_contains(pred, k);
            let m0 = choose|m0: int| 0 <= m0 < fl.len() && fl[m0] == l[k];
            assert(r[p.len() + m0] == fl[m0]);
            assert(r[p.len() + m0].id == l[k].id);
        }
    }
}

/// The join invents nothing: every identifier in the result comes from
/// a persisted record or a live container.
pub proof fn lemma_reconcile_no_invention(p: Seq<StoredAgentView>, l: Seq<AgentContainerView>)
    ensures
        forall|m: int|
            0 <= m < spec_reconcile(p, l).len() ==> (exists|j: int|
                0 <= j < p.len() && (#[trigger] p[j]).id == (#[trigger] spec_reconcile(p, l)[m]).id)
                || (exists|k: int|
                0 <= k < l.len() && (#[trigger] l[k]).id == spec_reconcile(p, l)[m].id),
{
    let r = spec_reconcile(p, l);
    let f = |_i: int, s: StoredAgentView| spec_merged(s, l);
    let pred = |c: AgentContainerView| spec_stored_find(p, c.id) < 0;
    let fl = l.filter(pred);
    assert forall|m: int| 0 <= m < r.len() implies (exists|j: int|
        0 <= j < p.len() && (#[trigger] p[j]).id == (#[trigger] r[m]).id) || (exists|k: int|
        0 <= k < l.len() && (#[trigger] l[k]).id == r[m].id) by {
        if m < p.len() {
            assert(r[m] == p.map(f)[m]);
            assert(p[m].id == r[m].id);
        } else {
            assert(r[m] == fl[m - p.len()]);
            lemma_filter_element_in(l, pred, m - p.len());
            let k = choose|k: int| 0 <= k < l.len() && l[k] == fl[m - p.len()];
            assert(l[k].id == r[m].id);
        }
    }
}

/// With pairwise-distinct persisted identifiers and pairwise-distinct
/// live identifiers, the join holds exactly one record per identifier:
/// no identifier appears twice.
pub proof fn lemma_reconcile_unique(p: Seq<StoredAgentView>, l: Seq<AgentContainerView>)
    requires
        forall|i: int, j: int|
            0 <= i < j < p.len() ==> (#[trigger] p[i]).id != (#[trigger] p[j]).id,
        forall|i: int, j: int|
            0 <= i < j < l.len() ==> (#[trigger] l[i]).id != (#[trigger] l[j]).id,
    ensures
        forall|m1: int, m2: int|
            0 <= m1 < m2 < spec_reconcile(p, l).len() ==> (#[trigger] spec_reconcile(p, l)[m1]).id
                != (#[trigger] spec_reconcile(p, l)[m2]).id,
{
    let r = spec_reconcile(p, l);
    let f = |_i: int, s: StoredAgentView| spec_merged(s, l);
    let pred = |c: AgentContainerView| spec_stored_find(p, c.id) < 0;
    let fl = l.filter(pred);
    lemma_filter_distinct_ids(l, pred);
    assert forall|m1: int, m2: int|
        0 <= m1 < m2 < r.len() implies (#[trigger] r[m1]).id != (#[trigger] r[m2]).id by {
        if m2 < p.len() {
            assert(r[m1] == p.map(f)[m1] && r[m2] == p.map(f)[m2]);
            assert(r[m1].id == p[m1].id && r[m2].id == p[m2].id);
        } else if m1 < p.len() {
            assert(r[m1] == p.map(f)[m1]);
            assert(r[m1].id == p[m1].id);
            assert(r[m2] == fl[m2 - p.len()]);
            l.lemma_filter_pred(pred, m2 - p.len());
            lemma_stored_find(p, r[m2].id);
        } else {
            assert(r[m1] == fl[m1 - p.len()] && r[m2] == fl[m2 - p.len()]);
        }
    }
}

/// Set the status of the first record under an identifier; reports
/// whether one was found. Nothing else changes.
#[verifier::loop_isolation(false)]
pub fn update_status(roster: &mut Vec<AgentContainer>, id: &str, status: AgentStatus) -> (r:
    bool)
    ensures
        r == (spec_roster_find(old(roster).deep_view(), id@) >= 0),
        final(roster)@.len() == old(roster)@.len(),
        forall|j: int|
            0 <= j < final(roster)@.len() && j != spec_roster_find(
                old(roster).deep_view(),
                id@,
            ) ==> final(roster)@[j] == old(roster)@[j],
        spec_roster_find(old(roster).deep_view(), id@) >= 0 ==> {
            let at = spec_roster_find(old(roster).deep_view(), id@);
            &&& final(roster).deep_view()[at].status == status
            &&& final(roster).deep_view()[at].id == old(roster).deep_view()[at].id
            &&& final(roster).deep_view()[at].config == old(roster).deep_view()[at].config
            &&& final(roster).deep_view()[at].name == old(roster).deep_view()[at].name
            &&& final(roster).deep_view()[at].runtime == old(roster).deep_view()[at].runtime
        },
{
    let ghost dv = roster.deep_view();
    match find_agent(roster, id) {
        Some(i) => {
            proof {
                lemma_roster_find(dv, id@);
            }
            let mut rec = roster[i].clone_record();
            rec.status = status;
            roster.set(i, rec);
            true
        },
        None => false,
    }
}

} // verus!
