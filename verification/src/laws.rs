//! The library's laws: properties that relate several operations, proved
//! once and for all over the spec-level model the operations' contracts
//! are stated in.

use vstd::prelude::*;

use crate::contract::{spec_add_unique, values_unique, Agent, Contract};
use crate::errors::AgentRemovalReason;
use crate::measurements::FullMeasurements;
use crate::views::spec_page;

verus! {

/// Approval is idempotent: approving a bundle a second time changes
/// nothing, the list grows by at most one element, and it stays
/// duplicate-free — the set keeps exactly one logical member per bundle.
pub proof fn lemma_approve_idempotent(s: Seq<FullMeasurements>, m: FullMeasurements)
    ensures
        spec_add_unique(spec_add_unique(s, m), m) == spec_add_unique(s, m),
        s.contains(m) ==> spec_add_unique(s, m) == s,
        spec_add_unique(s, m).len() <= s.len() + 1,
        values_unique(s) ==> values_unique(spec_add_unique(s, m)),
{
    if !s.contains(m) {
        let t = s.push(m);
        assert(t[s.len() as int] == m);
        assert(t.contains(m));
        if values_unique(s) {
            assert forall|i: int, j: int| 0 <= i < j < t.len() implies t[i] !== t[j] by {
                if j < s.len() {
                    assert(t[i] == s[i] && t[j] == s[j]);
                } else {
                    assert(t[j] == m && t[i] == s[i]);
                    if s[i] == m {
                        assert(s.contains(m));
                    }
                }
            }
        }
    }
}

/// Removing a bundle right after approving it restores the set as it was
/// before the approval, whichever occurrence the removal takes.  (This
/// needs the bundle not to have been approved already: removing an
/// already-present bundle after its no-op re-approval takes it out.)
/// Removing a never-approved bundle fails without mutation by
/// `remove_measurements`'s own contract.
pub proof fn lemma_remove_restores(s: Seq<FullMeasurements>, m: FullMeasurements, i: int)
    requires
        !s.contains(m),
        0 <= i < spec_add_unique(s, m).len(),
        spec_add_unique(s, m)[i] == m,
    ensures
        spec_add_unique(s, m).remove(i) == s,
{
    let t = s.push(m);
    if i < s.len() {
        assert(s[i] == m);
        assert(s.contains(m));
    }
    assert(t.remove(s.len() as int) =~= s);
}

/// Revocation is grounded: a registered agent whose stored bundle has been
/// de-approved gets a non-empty reason list naming `InvalidMeasurements`.
/// By `require_valid_agent`'s postconditions this deletes the record and
/// denies the call, and with the record gone every later call is answered
/// with `NotRegistered` — never a second removal event.
pub proof fn lemma_revocation_sticky(c: Contract, id: Seq<char>, now_ms: u64)
    requires
        c.wf(),
        c.has_agent(id),
        !c.measurements_approved(c.agent_for(id).measurements),
    ensures
        c.gate_reasons(c.agent_for(id), id, now_ms).contains(
            AgentRemovalReason::InvalidMeasurements,
        ),
        c.gate_reasons(c.agent_for(id), id, now_ms).len() > 0,
{
    let a = c.agent_for(id);
    let r = c.gate_reasons(a, id, now_ms);
    let k: int = if a.valid_until_ms < now_ms {
        1
    } else {
        0
    };
    assert(r[k] == AgentRemovalReason::InvalidMeasurements);
}

/// Multi-reason reporting: an agent whose bundle is unapproved and whose
/// record has expired gets both `ExpiredAttestation` and
/// `InvalidMeasurements` in the one reason list.
pub proof fn lemma_multi_reason(c: Contract, a: Agent, id: Seq<char>, now_ms: u64)
    requires
        a.valid_until_ms < now_ms,
        !c.measurements_approved(a.measurements),
    ensures
        c.gate_reasons(a, id, now_ms).contains(AgentRemovalReason::ExpiredAttestation),
        c.gate_reasons(a, id, now_ms).contains(AgentRemovalReason::InvalidMeasurements),
{
    let r = c.gate_reasons(a, id, now_ms);
    assert(r[0] == AgentRemovalReason::ExpiredAttestation);
    assert(r[1] == AgentRemovalReason::InvalidMeasurements);
}

/// Pure expiry revokes alone: a registered agent whose bundle and platform
/// id are still approved — and who, in local mode, is still whitelisted —
/// but whose record has expired gets exactly the one reason
/// `ExpiredAttestation`.  By `require_valid_agent`'s postconditions this
/// deletes the record and denies the call, and with the record gone every
/// later call is answered with `NotRegistered`.
pub proof fn lemma_expiry_single_reason(c: Contract, id: Seq<char>, now_ms: u64)
    requires
        c.wf(),
        c.has_agent(id),
        c.measurements_approved(c.agent_for(id).measurements),
        c.ppid_approved(c.agent_for(id).ppid),
        c.requires_tee || c.whitelisted(id),
        c.agent_for(id).valid_until_ms < now_ms,
    ensures
        c.gate_reasons(c.agent_for(id), id, now_ms) == seq![
            AgentRemovalReason::ExpiredAttestation,
        ],
{
    assert(c.gate_reasons(c.agent_for(id), id, now_ms) =~= seq![
        AgentRemovalReason::ExpiredAttestation,
    ]);
}

/// Owner transfer is final and exclusive: in every state exactly the
/// stored owner passes the owner check, so after a transfer the new owner
/// passes, a distinct old owner fails, and no state lets both or neither
/// pass.
pub proof fn lemma_owner_transfer(c2: Contract, old_owner: Seq<char>, new_owner: Seq<char>)
    requires
        c2.owner_id@ == new_owner,
    ensures
        c2.is_owner(new_owner),
        old_owner != new_owner ==> !c2.is_owner(old_owner),
        forall|x: Seq<char>| c2.is_owner(x) <==> x == new_owner,
{
}

/// Pagination is stable: the page of the first `n` elements followed by
/// the page of the next `m` elements is exactly the single page of the
/// first `n + m` elements — no duplicates, no omissions.
pub proof fn lemma_pagination_stable<T>(s: Seq<T>, n: int, m: int)
    requires
        0 <= n,
        0 <= m,
    ensures
        spec_page(s, 0, n) + spec_page(s, n, m) == spec_page(s, 0, n + m),
{
    assert(spec_page(s, 0, n) + spec_page(s, n, m) =~= spec_page(s, 0, n + m));
}

} // verus!
