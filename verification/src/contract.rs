//! The contract state: approval registry, agent registry, local whitelist,
//! owner, and the authorization gate that re-checks stored agent records at
//! call time and revokes them when any validity condition fails.

use vstd::prelude::*;

use crate::AccountId;
use crate::string_eq;
use crate::errors::{AgentRemovalReason, ContractError};
use crate::measurements::{FullMeasurements, Ppid};

verus! {

/// The initial expiry duration for freshly registered agents, in
/// milliseconds; the owner can change it later.
pub const DEFAULT_ATTESTATION_EXPIRATION_TIME_MS: u64 = 100000;

/// A stored agent record: the outcome of a successful registration, subject
/// to re-validation on every privileged call.
#[derive(Clone, Copy, Debug, PartialEq, Eq)]
pub struct Agent {
    pub measurements: FullMeasurements,
    pub ppid: Ppid,
    pub valid_until_ms: u64,
}

/// One entry of the agent registry: an identity and its record.
#[derive(Clone, Debug)]
pub struct AgentEntry {
    pub account_id: AccountId,
    pub agent: Agent,
}

/// The removal event emitted whenever an agent record is deleted: the
/// identity and every reason, reported together.  The authorization gate
/// carries its event inside `ContractError::AgentInvalid`; owner-initiated
/// removal returns this value.
#[derive(Clone, Debug, PartialEq, Eq)]
pub struct AgentRemovedEvent {
    pub account_id: AccountId,
    pub reasons: Vec<AgentRemovalReason>,
}

/// The whole contract state.  A single call owns it exclusively; there is no
/// aliasing across calls in the target execution model.
#[derive(Debug)]
pub struct Contract {
    pub owner_id: AccountId,
    pub mpc_contract_id: AccountId,
    pub requires_tee: bool,
    pub attestation_expiration_time_ms: u64,
    pub approved_measurements: Vec<FullMeasurements>,
    pub approved_ppids: Vec<Ppid>,
    pub whitelisted_agents_for_local: Vec<AccountId>,
    pub agents: Vec<AgentEntry>,
}

// ---------------------------------------------------------------------------
// Spec-level model of the registries
// ---------------------------------------------------------------------------

/// No two entries share an identity.
pub open spec fn keys_unique(s: Seq<AgentEntry>) -> bool {
    forall|i: int, j: int|
        0 <= i < j < s.len() ==> s[i].account_id@ != s[j].account_id@
}

/// Some entry carries the identity `id`.
pub open spec fn seq_has_key(s: Seq<AgentEntry>, id: Seq<char>) -> bool {
    exists|i: int| 0 <= i < s.len() && s[i].account_id@ == id
}

/// The index of the entry carrying `id` (meaningful only when present and
/// the keys are unique).
pub open spec fn key_ix(s: Seq<AgentEntry>, id: Seq<char>) -> int {
    choose|i: int| 0 <= i < s.len() && s[i].account_id@ == id
}

/// The record stored under `id`.
pub open spec fn record_of(s: Seq<AgentEntry>, id: Seq<char>) -> Agent {
    s[key_ix(s, id)].agent
}

/// Identity list membership, by the identities' character sequences.
pub open spec fn id_in_list(s: Seq<AccountId>, id: Seq<char>) -> bool {
    exists|i: int| 0 <= i < s.len() && s[i]@ == id
}

/// No identity occurs twice in the list.
pub open spec fn ids_unique(s: Seq<AccountId>) -> bool {
    forall|i: int, j: int| 0 <= i < j < s.len() ==> s[i]@ != s[j]@
}

/// No value occurs twice in the sequence.
pub open spec fn values_unique<T>(s: Seq<T>) -> bool {
    forall|i: int, j: int| 0 <= i < j < s.len() ==> s[i] !== s[j]
}

/// Adding a value to a duplicate-free sequence: a no-op when present.
pub open spec fn spec_add_unique<T>(s: Seq<T>, x: T) -> Seq<T> {
    if s.contains(x) {
        s
    } else {
        s.push(x)
    }
}

/// Adding each value of `xs` in turn.
pub open spec fn spec_add_all<T>(s: Seq<T>, xs: Seq<T>) -> Seq<T>
    decreases xs.len(),
{
    if xs.len() == 0 {
        s
    } else {
        spec_add_all(spec_add_unique(s, xs[0]), xs.drop_first())
    }
}

/// The sequence with every value of `batch` taken out: the elements outside
/// the batch, in their original order.  A value named twice in the batch is
/// simply gone.
pub open spec fn spec_batch_removed<T>(s: Seq<T>, batch: Seq<T>) -> Seq<T>
    decreases s.len(),
{
    if s.len() == 0 {
        Seq::empty()
    } else {
        let rest = spec_batch_removed(s.drop_last(), batch);
        if !batch.contains(s.last()) {
            rest.push(s.last())
        } else {
            rest
        }
    }
}

/// What `spec_batch_removed` holds: exactly the values that were there and
/// are not in the batch; duplicate-freedom is preserved.
pub proof fn lemma_batch_removed<T>(s: Seq<T>, batch: Seq<T>)
    ensures
        forall|q: T|
            #[trigger] spec_batch_removed(s, batch).contains(q) == (s.contains(q)
                && !batch.contains(q)),
        values_unique(s) ==> values_unique(spec_batch_removed(s, batch)),
    decreases s.len(),
{
    let t = spec_batch_removed(s, batch);
    if s.len() == 0 {
        assert forall|q: T| #[trigger] t.contains(q) == (s.contains(q) && !batch.contains(q)) by {
            if t.contains(q) {
                let i = choose|i: int| 0 <= i < t.len() && t[i] == q;
            }
            if s.contains(q) {
                let i = choose|i: int| 0 <= i < s.len() && s[i] == q;
            }
        }
    } else {
        let body = s.drop_last();
        let x = s.last();
        let rest = spec_batch_removed(body, batch);
        lemma_batch_removed(body, batch);
        if values_unique(s) {
            assert forall|i: int, j: int| 0 <= i < j < body.len() implies body[i]
                !== body[j] by {
                assert(body[i] == s[i] && body[j] == s[j]);
            }
            if !batch.contains(x) {
                if rest.contains(x) {
                    assert(body.contains(x));
                    let i = choose|i: int| 0 <= i < body.len() && body[i] == x;
                    assert(s[i] !== s[s.len() - 1]);
                }
                assert forall|i: int, j: int| 0 <= i < j < t.len() implies t[i] !== t[j] by {
                    if j < rest.len() {
                        assert(t[i] == rest[i] && t[j] == rest[j]);
                    } else {
                        assert(t[j] == x && t[i] == rest[i]);
                        if rest[i] == x {
                            assert(rest.contains(x));
                        }
                    }
                }
            }
        }
        assert forall|q: T| #[trigger] t.contains(q) == (s.contains(q) && !batch.contains(q)) by {
            if t.contains(q) {
                let i = choose|i: int| 0 <= i < t.len() && t[i] == q;
                if !batch.contains(x) && i == rest.len() {
                    assert(q == x);
                    assert(s[s.len() - 1] == q);
                } else {
                    assert(rest[i] == q);
                    assert(rest.contains(q));
                    assert(body.contains(q));
                    let j = choose|j: int| 0 <= j < body.len() && body[j] == q;
                    assert(s[j] == q);
                }
            }
            if s.contains(q) && !batch.contains(q) {
                let i = choose|i: int| 0 <= i < s.len() && s[i] == q;
                if i == s.len() - 1 {
                    assert(q == x);
                    assert(t[rest.len() as int] == q);
                } else {
                    assert(body[i] == q);
                    assert(body.contains(q));
                    assert(rest.contains(q));
                    let j = choose|j: int| 0 <= j < rest.len() && rest[j] == q;
                    assert(t[j] == q);
                }
            }
        }
    }
}

impl Contract {
    /// Internal consistency: every registry is duplicate-free.
    pub open spec fn wf(self) -> bool {
        &&& values_unique(self.approved_measurements@)
        &&& values_unique(self.approved_ppids@)
        &&& ids_unique(self.whitelisted_agents_for_local@)
        &&& keys_unique(self.agents@)
    }

    /// The caller is the current owner.
    pub open spec fn is_owner(self, caller: Seq<char>) -> bool {
        caller == self.owner_id@
    }

    /// The bundle is in the approved set.
    pub open spec fn measurements_approved(self, m: FullMeasurements) -> bool {
        self.approved_measurements@.contains(m)
    }

    /// The platform id is in the approved set.
    pub open spec fn ppid_approved(self, p: Ppid) -> bool {
        self.approved_ppids@.contains(p)
    }

    /// The identity is whitelisted for local (non-attested) registration.
    pub open spec fn whitelisted(self, id: Seq<char>) -> bool {
        id_in_list(self.whitelisted_agents_for_local@, id)
    }

    /// An agent record exists for the identity.
    pub open spec fn has_agent(self, id: Seq<char>) -> bool {
        seq_has_key(self.agents@, id)
    }

    /// The agent record stored for the identity.
    pub open spec fn agent_for(self, id: Seq<char>) -> Agent {
        record_of(self.agents@, id)
    }

    /// Every identity other than `id` keeps its registration status and its
    /// record.
    pub open spec fn agents_unchanged_except(self, other: Contract, id: Seq<char>) -> bool {
        &&& forall|x: Seq<char>|
            x != id ==> #[trigger] other.has_agent(x) == self.has_agent(x)
        &&& forall|x: Seq<char>|
            x != id && self.has_agent(x) ==> #[trigger] other.agent_for(x) == self.agent_for(x)
    }

    /// The reasons the authorization gate reports for a record, evaluated
    /// independently and exhaustively, in a fixed order.
    pub open spec fn gate_reasons(self, a: Agent, id: Seq<char>, now_ms: u64) -> Seq<
        AgentRemovalReason,
    > {
        (if a.valid_until_ms < now_ms {
            seq![AgentRemovalReason::ExpiredAttestation]
        } else {
            Seq::empty()
        }) + (if !self.measurements_approved(a.measurements) {
            seq![AgentRemovalReason::InvalidMeasurements]
        } else {
            Seq::empty()
        }) + (if !self.ppid_approved(a.ppid) {
            seq![AgentRemovalReason::InvalidPpid]
        } else {
            Seq::empty()
        }) + (if !self.requires_tee && !self.whitelisted(id) {
            seq![AgentRemovalReason::NotWhitelistedForLocal]
        } else {
            Seq::empty()
        })
    }

}

// ---------------------------------------------------------------------------
// Lemmas about the registries
// ---------------------------------------------------------------------------

/// With unique keys, any index holding `id` is the index `key_ix` denotes.
pub proof fn lemma_key_at(s: Seq<AgentEntry>, id: Seq<char>, i: int)
    requires
        keys_unique(s),
        0 <= i < s.len(),
        s[i].account_id@ == id,
    ensures
        seq_has_key(s, id),
        key_ix(s, id) == i,
        record_of(s, id) == s[i].agent,
{
    assert(seq_has_key(s, id));
    let j = key_ix(s, id);
    assert(0 <= j < s.len() && s[j].account_id@ == id);
    if i < j {
        assert(s[i].account_id@ != s[j].account_id@);
    } else if j < i {
        assert(s[j].account_id@ != s[i].account_id@);
    }
}

/// Removing the entry at `id`'s index: `id` is gone, everything else keeps
/// its status and record, and the keys stay unique.
pub proof fn lemma_remove_key(s: Seq<AgentEntry>, i: int)
    requires
        keys_unique(s),
        0 <= i < s.len(),
    ensures
        keys_unique(s.remove(i)),
        !seq_has_key(s.remove(i), s[i].account_id@),
        forall|x: Seq<char>|
            x != s[i].account_id@ ==> #[trigger] seq_has_key(s.remove(i), x) == seq_has_key(s, x),
        forall|x: Seq<char>|
            x != s[i].account_id@ && seq_has_key(s, x) ==> #[trigger] record_of(s.remove(i), x)
                == record_of(s, x),
{
    let id = s[i].account_id@;
    let t = s.remove(i);
    assert forall|x: Seq<char>| x != id implies #[trigger] seq_has_key(t, x) == seq_has_key(
        s,
        x,
    ) by {
        if seq_has_key(s, x) {
            let j = choose|j: int| 0 <= j < s.len() && s[j].account_id@ == x;
            if j < i {
                assert(t[j] == s[j]);
                assert(seq_has_key(t, x));
            } else {
                assert(j != i);
                assert(t[j - 1] == s[j]);
                assert(seq_has_key(t, x));
            }
        }
        if seq_has_key(t, x) {
            let j = choose|j: int| 0 <= j < t.len() && t[j].account_id@ == x;
            if j < i {
                assert(s[j] == t[j]);
                assert(seq_has_key(s, x));
            } else {
                assert(s[j + 1] == t[j]);
                assert(seq_has_key(s, x));
            }
        }
    }
    assert forall|x: Seq<char>| x != id && seq_has_key(s, x) implies #[trigger] record_of(t, x)
        == record_of(s, x) by {
        let j = key_ix(s, x);
        assert(0 <= j < s.len() && s[j].account_id@ == x);
        assert(j != i);
        if j < i {
            assert(t[j] == s[j]);
            lemma_key_at(t, x, j);
        } else {
            assert(t[j - 1] == s[j]);
            lemma_key_at(t, x, j - 1);
        }
        lemma_key_at(s, x, j);
    }
    if seq_has_key(t, id) {
        let j = choose|j: int| 0 <= j < t.len() && t[j].account_id@ == id;
        if j < i {
            assert(s[j] == t[j]);
            assert(s[j].account_id@ == s[i].account_id@);
        } else {
            assert(s[j + 1] == t[j]);
            assert(s[j + 1].account_id@ == s[i].account_id@);
        }
    }
}

/// Appending an entry under a fresh identity: it becomes registered with its
/// record, everything else keeps its status and record.
pub proof fn lemma_push_key(s: Seq<AgentEntry>, e: AgentEntry)
    requires
        keys_unique(s),
        !seq_has_key(s, e.account_id@),
    ensures
        keys_unique(s.push(e)),
        seq_has_key(s.push(e), e.account_id@),
        record_of(s.push(e), e.account_id@) == e.agent,
        forall|x: Seq<char>|
            x != e.account_id@ ==> #[trigger] seq_has_key(s.push(e), x) == seq_has_key(s, x),
        forall|x: Seq<char>|
            x != e.account_id@ && seq_has_key(s, x) ==> #[trigger] record_of(s.push(e), x)
                == record_of(s, x),
{
    let t = s.push(e);
    assert(t[s.len() as int] == e);
    assert forall|i: int, j: int| 0 <= i < j < t.len() implies t[i].account_id@
        != t[j].account_id@ by {
        if j < s.len() {
            assert(t[i] == s[i] && t[j] == s[j]);
        } else {
            assert(t[j] == e);
            assert(t[i] == s[i]);
            assert(!seq_has_key(s, e.account_id@));
            if s[i].account_id@ == e.account_id@ {
                assert(seq_has_key(s, e.account_id@));
            }
        }
    }
    lemma_key_at(t, e.account_id@, s.len() as int);
    assert forall|x: Seq<char>| x != e.account_id@ implies #[trigger] seq_has_key(t, x)
        == seq_has_key(s, x) by {
        if seq_has_key(s, x) {
            let j = choose|j: int| 0 <= j < s.len() && s[j].account_id@ == x;
            assert(t[j] == s[j]);
            assert(seq_has_key(t, x));
        }
        if seq_has_key(t, x) {
            let j = choose|j: int| 0 <= j < t.len() && t[j].account_id@ == x;
            assert(j < s.len());
            assert(s[j] == t[j]);
            assert(seq_has_key(s, x));
        }
    }
    assert forall|x: Seq<char>| x != e.account_id@ && seq_has_key(s, x) implies #[trigger] record_of(
        t,
        x,
    ) == record_of(s, x) by {
        let j = key_ix(s, x);
        assert(0 <= j < s.len() && s[j].account_id@ == x);
        assert(t[j] == s[j]);
        lemma_key_at(t, x, j);
        lemma_key_at(s, x, j);
    }
}

// ---------------------------------------------------------------------------
// Executable lookups
// ---------------------------------------------------------------------------

/// Finds the index of the entry registered under `id`, if any.
pub fn find_agent_ix(agents: &Vec<AgentEntry>, id: &AccountId) -> (r: Option<usize>)
    ensures
        match r {
            Some(i) => i < agents@.len() && agents@[i as int].account_id@ == id@,
            None => !seq_has_key(agents@, id@),
        },
{
    let n = agents.len();
    let mut i: usize = 0;
    while i < n
        invariant
            n == agents@.len(),
            i <= n,
            forall|j: int| 0 <= j < i ==> agents@[j].account_id@ != id@,
        decreases n - i,
    {
        if string_eq(&agents[i].account_id, id) {
            return Some(i);
        }
        i += 1;
    }
    None
}

/// Whether `id` occurs in a list of identities.
pub fn contains_account(list: &Vec<AccountId>, id: &AccountId) -> (r: bool)
    ensures
        r == id_in_list(list@, id@),
{
    let n = list.len();
    let mut i: usize = 0;
    while i < n
        invariant
            n == list@.len(),
            i <= n,
            forall|j: int| 0 <= j < i ==> list@[j]@ != id@,
        decreases n - i,
    {
        if string_eq(&list[i], id) {
            return true;
        }
        i += 1;
    }
    false
}

/// Finds the index of `id` in a list of identities, if any.
pub fn find_account_ix(list: &Vec<AccountId>, id: &AccountId) -> (r: Option<usize>)
    ensures
        match r {
            Some(i) => i < list@.len() && list@[i as int]@ == id@,
            None => !id_in_list(list@, id@),
        },
{
    let n = list.len();
    let mut i: usize = 0;
    while i < n
        invariant
            n == list@.len(),
            i <= n,
            forall|j: int| 0 <= j < i ==> list@[j]@ != id@,
        decreases n - i,
    {
        if string_eq(&list[i], id) {
            return Some(i);
        }
        i += 1;
    }
    None
}

/// Whether `m` occurs in a list of measurement bundles.
pub fn contains_measurements(list: &Vec<FullMeasurements>, m: &FullMeasurements) -> (r: bool)
    ensures
        r == list@.contains(*m),
{
    let n = list.len();
    let mut i: usize = 0;
    while i < n
        invariant
            n == list@.len(),
            i <= n,
            forall|j: int| 0 <= j < i ==> list@[j] != *m,
        decreases n - i,
    {
        if list[i].eq_to(m) {
            return true;
        }
        i += 1;
    }
    false
}

/// Finds the index of `m` in a list of measurement bundles, if any.
pub fn find_measurements_ix(list: &Vec<FullMeasurements>, m: &FullMeasurements) -> (r: Option<
    usize,
>)
    ensures
        match r {
            Some(i) => i < list@.len() && list@[i as int] == *m,
            None => !list@.contains(*m),
        },
{
    let n = list.len();
    let mut i: usize = 0;
    while i < n
        invariant
            n == list@.len(),
            i <= n,
            forall|j: int| 0 <= j < i ==> list@[j] != *m,
        decreases n - i,
    {
        if list[i].eq_to(m) {
            return Some(i);
        }
        i += 1;
    }
    None
}

/// Whether `p` occurs in a list of platform ids.
pub fn contains_ppid(list: &Vec<Ppid>, p: &Ppid) -> (r: bool)
    ensures
        r == list@.contains(*p),
{
    let n = list.len();
    let mut i: usize = 0;
    while i < n
        invariant
            n == list@.len(),
            i <= n,
            forall|j: int| 0 <= j < i ==> list@[j] != *p,
        decreases n - i,
    {
        if list[i].eq_to(p) {
            return true;
        }
        i += 1;
    }
    false
}

/// Finds the index of `p` in a list of platform ids, if any.
pub fn find_ppid_ix(list: &Vec<Ppid>, p: &Ppid) -> (r: Option<usize>)
    ensures
        match r {
            Some(i) => i < list@.len() && list@[i as int] == *p,
            None => !list@.contains(*p),
        },
{
    let n = list.len();
    let mut i: usize = 0;
    while i < n
        invariant
            n == list@.len(),
            i <= n,
            forall|j: int| 0 <= j < i ==> list@[j] != *p,
        decreases n - i,
    {
        if list[i].eq_to(p) {
            return Some(i);
        }
        i += 1;
    }
    None
}

// ---------------------------------------------------------------------------
// Construction and owner-managed configuration
// ---------------------------------------------------------------------------

impl Contract {
    /// A fresh contract: the given owner and signer endpoint, empty
    /// registries, and the default expiry duration.
    pub fn new(requires_tee: bool, owner_id: AccountId, mpc_contract_id: AccountId) -> (r:
        Contract)
        ensures
            r.wf(),
            r.owner_id@ == owner_id@,
            r.mpc_contract_id@ == mpc_contract_id@,
            r.requires_tee == requires_tee,
            r.attestation_expiration_time_ms == DEFAULT_ATTESTATION_EXPIRATION_TIME_MS,
            r.approved_measurements@.len() == 0,
            r.approved_ppids@.len() == 0,
            r.whitelisted_agents_for_local@.len() == 0,
            r.agents@.len() == 0,
    {
        Contract {
            owner_id,
            mpc_contract_id,
            requires_tee,
            attestation_expiration_time_ms: DEFAULT_ATTESTATION_EXPIRATION_TIME_MS,
            approved_measurements: Vec::new(),
            approved_ppids: Vec::new(),
            whitelisted_agents_for_local: Vec::new(),
            agents: Vec::new(),
        }
    }

    /// Whether the caller is the current owner.
    pub fn check_owner(&self, caller: &AccountId) -> (r: bool)
        ensures
            r == self.is_owner(caller@),
    {
        string_eq(caller, &self.owner_id)
    }

    /// Transfers ownership.  Owner-only; fails closed with no state change.
    pub fn update_owner_id(&mut self, caller: &AccountId, owner_id: AccountId) -> (r: Result<
        (),
        ContractError,
    >)
        ensures
            !old(self).is_owner(caller@) ==> r == Err::<(), ContractError>(ContractError::NotOwner)
                && *final(self) == *old(self),
            old(self).is_owner(caller@) ==> r is Ok && *final(self) == (Contract {
                owner_id,
                ..*old(self)
            }),
    {
        if !self.check_owner(caller) {
            return Err(ContractError::NotOwner);
        }
        self.owner_id = owner_id;
        Ok(())
    }

    /// Changes the downstream signer endpoint.  Owner-only.
    pub fn update_mpc_contract_id(&mut self, caller: &AccountId, mpc_contract_id: AccountId) -> (r:
        Result<(), ContractError>)
        ensures
            !old(self).is_owner(caller@) ==> r == Err::<(), ContractError>(ContractError::NotOwner)
                && *final(self) == *old(self),
            old(self).is_owner(caller@) ==> r is Ok && *final(self) == (Contract {
                mpc_contract_id,
                ..*old(self)
            }),
    {
        if !self.check_owner(caller) {
            return Err(ContractError::NotOwner);
        }
        self.mpc_contract_id = mpc_contract_id;
        Ok(())
    }

    /// Changes the expiry duration applied at registration time.  Existing
    /// records keep the `valid_until_ms` they were stored with.  Owner-only.
    pub fn update_attestation_expiration_time(
        &mut self,
        caller: &AccountId,
        attestation_expiration_time_ms: u64,
    ) -> (r: Result<(), ContractError>)
        ensures
            !old(self).is_owner(caller@) ==> r == Err::<(), ContractError>(ContractError::NotOwner)
                && *final(self) == *old(self),
            old(self).is_owner(caller@) ==> r is Ok && *final(self) == (Contract {
                attestation_expiration_time_ms,
                ..*old(self)
            }),
    {
        if !self.check_owner(caller) {
            return Err(ContractError::NotOwner);
        }
        self.attestation_expiration_time_ms = attestation_expiration_time_ms;
        Ok(())
    }
}

// ---------------------------------------------------------------------------
// Lemmas about duplicate-free value sequences
// ---------------------------------------------------------------------------

/// Appending a fresh value keeps the sequence duplicate-free; membership of
/// every other value is untouched.
pub proof fn lemma_push_value<T>(s: Seq<T>, x: T)
    requires
        values_unique(s),
        !s.contains(x),
    ensures
        values_unique(s.push(x)),
        s.push(x).contains(x),
        forall|y: T| y !== x ==> #[trigger] s.push(x).contains(y) == s.contains(y),
{
    let t = s.push(x);
    assert(t[s.len() as int] == x);
    assert forall|i: int, j: int| 0 <= i < j < t.len() implies t[i] !== t[j] by {
        if j < s.len() {
            assert(t[i] == s[i] && t[j] == s[j]);
        } else {
            assert(t[j] == x && t[i] == s[i]);
            if s[i] == x {
                assert(s.contains(x));
            }
        }
    }
    assert forall|y: T| y !== x implies #[trigger] t.contains(y) == s.contains(y) by {
        if s.contains(y) {
            let i = choose|i: int| 0 <= i < s.len() && s[i] == y;
            assert(t[i] == y);
        }
        if t.contains(y) {
            let i = choose|i: int| 0 <= i < t.len() && t[i] == y;
            assert(i < s.len());
            assert(s[i] == y);
        }
    }
}

/// Removing the value at index `i` from a duplicate-free sequence: that
/// value is gone, every other value keeps its membership.
pub proof fn lemma_remove_value<T>(s: Seq<T>, i: int)
    requires
        values_unique(s),
        0 <= i < s.len(),
    ensures
        values_unique(s.remove(i)),
        !s.remove(i).contains(s[i]),
        forall|y: T| y !== s[i] ==> #[trigger] s.remove(i).contains(y) == s.contains(y),
{
    let x = s[i];
    let t = s.remove(i);
    assert forall|a: int, b: int| 0 <= a < b < t.len() implies t[a] !== t[b] by {
        let a2: int = if a < i { a } else { a + 1 };
        let b2: int = if b < i { b } else { b + 1 };
        assert(t[a] == s[a2] && t[b] == s[b2]);
    }
    if t.contains(x) {
        let j = choose|j: int| 0 <= j < t.len() && t[j] == x;
        if j < i {
            assert(s[j] == t[j]);
        } else {
            assert(s[j + 1] == t[j]);
        }
    }
    assert forall|y: T| y !== x implies #[trigger] t.contains(y) == s.contains(y) by {
        if s.contains(y) {
            let j = choose|j: int| 0 <= j < s.len() && s[j] == y;
            assert(j != i);
            if j < i {
                assert(t[j] == s[j]);
            } else {
                assert(t[j - 1] == s[j]);
            }
        }
        if t.contains(y) {
            let j = choose|j: int| 0 <= j < t.len() && t[j] == y;
            if j < i {
                assert(s[j] == t[j]);
            } else {
                assert(s[j + 1] == t[j]);
            }
        }
    }
}

/// The identity-list counterpart of `lemma_push_value`, comparing by view.
pub proof fn lemma_push_id(s: Seq<AccountId>, x: AccountId)
    requires
        ids_unique(s),
        !id_in_list(s, x@),
    ensures
        ids_unique(s.push(x)),
        id_in_list(s.push(x), x@),
        forall|y: Seq<char>| y != x@ ==> #[trigger] id_in_list(s.push(x), y) == id_in_list(s, y),
{
    let t = s.push(x);
    assert(t[s.len() as int] == x);
    assert forall|i: int, j: int| 0 <= i < j < t.len() implies t[i]@ != t[j]@ by {
        if j < s.len() {
            assert(t[i] == s[i] && t[j] == s[j]);
        } else {
            assert(t[j] == x && t[i] == s[i]);
            if s[i]@ == x@ {
                assert(id_in_list(s, x@));
            }
        }
    }
    assert forall|y: Seq<char>| y != x@ implies #[trigger] id_in_list(t, y) == id_in_list(
        s,
        y,
    ) by {
        if id_in_list(s, y) {
            let i = choose|i: int| 0 <= i < s.len() && s[i]@ == y;
            assert(t[i] == s[i]);
            assert(id_in_list(t, y));
        }
        if id_in_list(t, y) {
            let i = choose|i: int| 0 <= i < t.len() && t[i]@ == y;
            assert(i < s.len());
            assert(s[i] == t[i]);
            assert(id_in_list(s, y));
        }
    }
}

/// The identity-list counterpart of `lemma_remove_value`, comparing by view.
pub proof fn lemma_remove_id(s: Seq<AccountId>, i: int)
    requires
        ids_unique(s),
        0 <= i < s.len(),
    ensures
        ids_unique(s.remove(i)),
        !id_in_list(s.remove(i), s[i]@),
        forall|y: Seq<char>| y != s[i]@ ==> #[trigger] id_in_list(s.remove(i), y) == id_in_list(
            s,
            y,
        ),
{
    let x = s[i]@;
    let t = s.remove(i);
    assert forall|a: int, b: int| 0 <= a < b < t.len() implies t[a]@ != t[b]@ by {
        let a2: int = if a < i { a } else { a + 1 };
        let b2: int = if b < i { b } else { b + 1 };
        assert(t[a] == s[a2] && t[b] == s[b2]);
    }
    if id_in_list(t, x) {
        let j = choose|j: int| 0 <= j < t.len() && t[j]@ == x;
        if j < i {
            assert(s[j] == t[j]);
        } else {
            assert(s[j + 1] == t[j]);
        }
    }
    assert forall|y: Seq<char>| y != x implies #[trigger] id_in_list(t, y) == id_in_list(s, y) by {
        if id_in_list(s, y) {
            let j = choose|j: int| 0 <= j < s.len() && s[j]@ == y;
            assert(j != i);
            if j < i {
                assert(t[j] == s[j]);
            } else {
                assert(t[j - 1] == s[j]);
            }
            assert(id_in_list(t, y));
        }
        if id_in_list(t, y) {
            let j = choose|j: int| 0 <= j < t.len() && t[j]@ == y;
            if j < i {
                assert(s[j] == t[j]);
            } else {
                assert(s[j + 1] == t[j]);
            }
            assert(id_in_list(s, y));
        }
    }
}

// ---------------------------------------------------------------------------
// Approval registry
// ---------------------------------------------------------------------------

impl Contract {
    /// Approves a measurement bundle.  Owner-only and idempotent: approving
    /// an already-approved bundle leaves the set unchanged.
    pub fn approve_measurements(&mut self, caller: &AccountId, measurements: FullMeasurements)
        -> (r: Result<(), ContractError>)
        requires
            old(self).wf(),
        ensures
            final(self).wf(),
            !old(self).is_owner(caller@) ==> r == Err::<(), ContractError>(ContractError::NotOwner)
                && *final(self) == *old(self),
            old(self).is_owner(caller@) ==> r is Ok && *final(self) == (Contract {
                approved_measurements: final(self).approved_measurements,
                ..*old(self)
            }) && final(self).approved_measurements@ == spec_add_unique(
                old(self).approved_measurements@,
                measurements,
            ),
    {
        if !self.check_owner(caller) {
            return Err(ContractError::NotOwner);
        }
        if !contains_measurements(&self.approved_measurements, &measurements) {
            proof {
                lemma_push_value(self.approved_measurements@, measurements);
            }
            self.approved_measurements.push(measurements);
        }
        Ok(())
    }

    /// Removes a measurement bundle from the approved list.  Owner-only;
    /// fails with `MeasurementsNotApproved` when the bundle is absent, so
    /// the caller always learns the current state.
    pub fn remove_measurements(&mut self, caller: &AccountId, measurements: FullMeasurements)
        -> (r: Result<(), ContractError>)
        requires
            old(self).wf(),
        ensures
            final(self).wf(),
            !old(self).is_owner(caller@) ==> r == Err::<(), ContractError>(ContractError::NotOwner)
                && *final(self) == *old(self),
            old(self).is_owner(caller@) && !old(self).measurements_approved(measurements) ==> r
                == Err::<(), ContractError>(ContractError::MeasurementsNotApproved) && *final(self)
                == *old(self),
            old(self).is_owner(caller@) && old(self).measurements_approved(measurements) ==> {
                &&& r is Ok
                &&& *final(self) == (Contract {
                    approved_measurements: final(self).approved_measurements,
                    ..*old(self)
                })
                &&& ({
                    let before = old(self).approved_measurements@;
                    let after = final(self).approved_measurements@;
                    exists|i: int|
                        0 <= i < before.len() && before[i] == measurements && after == before.remove(
                            i,
                        )
                })
                &&& !final(self).measurements_approved(measurements)
                &&& ({
                    let pre = *old(self);
                    let post = *final(self);
                    forall|y: FullMeasurements|
                        y !== measurements ==> #[trigger] post.measurements_approved(y)
                            == pre.measurements_approved(y)
                })
            },
    {
        if !self.check_owner(caller) {
            return Err(ContractError::NotOwner);
        }
        match find_measurements_ix(&self.approved_measurements, &measurements) {
            None => Err(ContractError::MeasurementsNotApproved),
            Some(i) => {
                proof {
                    lemma_remove_value(self.approved_measurements@, i as int);
                }
                self.approved_measurements.remove(i);
                Ok(())
            },
        }
    }

    /// Approves a batch of platform ids.  Owner-only; each id is inserted
    /// idempotently, in order.
    pub fn approve_ppids(&mut self, caller: &AccountId, ppids: Vec<Ppid>) -> (r: Result<
        (),
        ContractError,
    >)
        requires
            old(self).wf(),
        ensures
            final(self).wf(),
            !old(self).is_owner(caller@) ==> r == Err::<(), ContractError>(ContractError::NotOwner)
                && *final(self) == *old(self),
            old(self).is_owner(caller@) ==> r is Ok && *final(self) == (Contract {
                approved_ppids: final(self).approved_ppids,
                ..*old(self)
            }) && final(self).approved_ppids@ == spec_add_all(old(self).approved_ppids@, ppids@),
    {
        if !self.check_owner(caller) {
            return Err(ContractError::NotOwner);
        }
        proof {
            assert(ppids@.skip(0) =~= ppids@);
        }
        let n = ppids.len();
        let mut k: usize = 0;
        while k < n
            invariant
                n == ppids@.len(),
                k <= n,
                old(self).wf(),
                old(self).is_owner(caller@),
                values_unique(self.approved_ppids@),
                spec_add_all(self.approved_ppids@, ppids@.skip(k as int)) == spec_add_all(
                    old(self).approved_ppids@,
                    ppids@,
                ),
                *self == (Contract { approved_ppids: self.approved_ppids, ..*old(self) }),
            decreases n - k,
        {
            let ghost pre = self.approved_ppids@;
            let ghost rest = ppids@.skip(k as int);
            let p = ppids[k];
            if !contains_ppid(&self.approved_ppids, &p) {
                proof {
                    lemma_push_value(self.approved_ppids@, p);
                }
                self.approved_ppids.push(p);
            }
            proof {
                assert(rest[0] == p);
                assert(self.approved_ppids@ == spec_add_unique(pre, p));
                assert(rest.drop_first() =~= ppids@.skip(k as int + 1));
                assert(spec_add_all(pre, rest) == spec_add_all(
                    spec_add_unique(pre, p),
                    rest.drop_first(),
                ));
            }
            k += 1;
        }
        proof {
            assert(ppids@.skip(n as int) =~= Seq::<Ppid>::empty());
        }
        Ok(())
    }

    /// Removes a batch of platform ids.  Owner-only and atomic: if any id
    /// of the batch is not approved at call time, the whole call fails with
    /// `PpidNotApproved` and nothing changes; otherwise every id of the
    /// batch is removed (naming an approved id twice is harmless) and the
    /// rest keep their order.
    pub fn remove_ppids(&mut self, caller: &AccountId, ppids: Vec<Ppid>) -> (r: Result<
        (),
        ContractError,
    >)
        requires
            old(self).wf(),
        ensures
            final(self).wf(),
            !old(self).is_owner(caller@) ==> r == Err::<(), ContractError>(ContractError::NotOwner)
                && *final(self) == *old(self),
            old(self).is_owner(caller@) && (exists|k: int|
                0 <= k < ppids@.len() && !old(self).ppid_approved(#[trigger] ppids@[k])) ==> r
                == Err::<(), ContractError>(ContractError::PpidNotApproved) && *final(self)
                == *old(self),
            old(self).is_owner(caller@) && (forall|k: int|
                0 <= k < ppids@.len() ==> old(self).ppid_approved(#[trigger] ppids@[k])) ==> {
                &&& r is Ok
                &&& *final(self) == (Contract {
                    approved_ppids: final(self).approved_ppids,
                    ..*old(self)
                })
                &&& final(self).approved_ppids@ == spec_batch_removed(
                    old(self).approved_ppids@,
                    ppids@,
                )
                &&& ({
                    let pre = *old(self);
                    let post = *final(self);
                    forall|q: Ppid|
                        #[trigger] post.ppid_approved(q) == (pre.ppid_approved(q)
                            && !ppids@.contains(q))
                })
            },
    {
        if !self.check_owner(caller) {
            return Err(ContractError::NotOwner);
        }
        // Every id of the batch is judged against the set as it stands at
        // call time, so a batch naming the same approved id twice passes.
        let n = ppids.len();
        let mut k: usize = 0;
        while k < n
            invariant
                n == ppids@.len(),
                k <= n,
                old(self).wf(),
                old(self).is_owner(caller@),
                *self == *old(self),
                forall|j: int| 0 <= j < k ==> self.ppid_approved(#[trigger] ppids@[j]),
            decreases n - k,
        {
            if !contains_ppid(&self.approved_ppids, &ppids[k]) {
                return Err(ContractError::PpidNotApproved);
            }
            k += 1;
        }

        // Keep exactly the approved ids outside the batch, in order.
        let m = self.approved_ppids.len();
        let mut kept: Vec<Ppid> = Vec::new();
        let mut t: usize = 0;
        while t < m
            invariant
                m == self.approved_ppids@.len(),
                t <= m,
                old(self).wf(),
                old(self).is_owner(caller@),
                *self == *old(self),
                kept@ == spec_batch_removed(self.approved_ppids@.take(t as int), ppids@),
            decreases m - t,
        {
            let ghost pre = self.approved_ppids@.take(t as int);
            let ghost cur = self.approved_ppids@.take(t as int + 1);
            let p = self.approved_ppids[t];
            if !contains_ppid(&ppids, &p) {
                kept.push(p);
            }
            proof {
                assert(cur.drop_last() =~= pre);
                assert(cur.last() == p);
                assert(spec_batch_removed(cur, ppids@) == (if !ppids@.contains(p) {
                    spec_batch_removed(pre, ppids@).push(p)
                } else {
                    spec_batch_removed(pre, ppids@)
                }));
            }
            t += 1;
        }
        proof {
            assert(self.approved_ppids@.take(m as int) =~= self.approved_ppids@);
            lemma_batch_removed(self.approved_ppids@, ppids@);
        }
        self.approved_ppids = kept;
        Ok(())
    }
}

// ---------------------------------------------------------------------------
// Local whitelist and agent registry management
// ---------------------------------------------------------------------------

impl Contract {
    /// Puts an identity on the local whitelist, so that it may register
    /// while hardware attestation is disabled.  Owner-only and idempotent;
    /// an existing agent record is left untouched.
    pub fn whitelist_agent(&mut self, caller: &AccountId, account_id: AccountId) -> (r: Result<
        (),
        ContractError,
    >)
        requires
            old(self).wf(),
        ensures
            final(self).wf(),
            !old(self).is_owner(caller@) ==> r == Err::<(), ContractError>(ContractError::NotOwner)
                && *final(self) == *old(self),
            old(self).is_owner(caller@) ==> r is Ok && *final(self) == (Contract {
                whitelisted_agents_for_local: final(self).whitelisted_agents_for_local,
                ..*old(self)
            }) && final(self).whitelisted_agents_for_local@ == (if old(self).whitelisted(
                account_id@,
            ) {
                old(self).whitelisted_agents_for_local@
            } else {
                old(self).whitelisted_agents_for_local@.push(account_id)
            }),
    {
        if !self.check_owner(caller) {
            return Err(ContractError::NotOwner);
        }
        if !contains_account(&self.whitelisted_agents_for_local, &account_id) {
            proof {
                lemma_push_id(self.whitelisted_agents_for_local@, account_id);
            }
            self.whitelisted_agents_for_local.push(account_id);
        }
        Ok(())
    }

    /// Takes an identity off the local whitelist.  Owner-only; fails with
    /// `NotWhitelisted` when the identity is absent.  An existing agent
    /// record is left untouched (it falls at the next gate check instead).
    pub fn remove_agent_for_local(&mut self, caller: &AccountId, account_id: AccountId) -> (r:
        Result<(), ContractError>)
        requires
            old(self).wf(),
        ensures
            final(self).wf(),
            !old(self).is_owner(caller@) ==> r == Err::<(), ContractError>(ContractError::NotOwner)
                && *final(self) == *old(self),
            old(self).is_owner(caller@) && !old(self).whitelisted(account_id@) ==> r == Err::<
                (),
                ContractError,
            >(ContractError::NotWhitelisted) && *final(self) == *old(self),
            old(self).is_owner(caller@) && old(self).whitelisted(account_id@) ==> {
                &&& r is Ok
                &&& *final(self) == (Contract {
                    whitelisted_agents_for_local: final(self).whitelisted_agents_for_local,
                    ..*old(self)
                })
                &&& !final(self).whitelisted(account_id@)
                &&& ({
                    let pre = *old(self);
                    let post = *final(self);
                    forall|y: Seq<char>|
                        y != account_id@ ==> #[trigger] post.whitelisted(y) == pre.whitelisted(y)
                })
            },
    {
        if !self.check_owner(caller) {
            return Err(ContractError::NotOwner);
        }
        match find_account_ix(&self.whitelisted_agents_for_local, &account_id) {
            None => Err(ContractError::NotWhitelisted),
            Some(i) => {
                proof {
                    lemma_remove_id(self.whitelisted_agents_for_local@, i as int);
                }
                self.whitelisted_agents_for_local.remove(i);
                Ok(())
            },
        }
    }

    /// Removes an agent record explicitly.  Owner-only; fails with
    /// `NotRegistered` when no record exists.  On success it returns the
    /// emitted removal event, which carries the identity and the single
    /// reason `ManualRemoval`.
    pub fn remove_agent(&mut self, caller: &AccountId, account_id: AccountId) -> (r: Result<
        AgentRemovedEvent,
        ContractError,
    >)
        requires
            old(self).wf(),
        ensures
            final(self).wf(),
            !old(self).is_owner(caller@) ==> r == Err::<AgentRemovedEvent, ContractError>(
                ContractError::NotOwner,
            ) && *final(self) == *old(self),
            old(self).is_owner(caller@) && !old(self).has_agent(account_id@) ==> r == Err::<
                AgentRemovedEvent,
                ContractError,
            >(ContractError::NotRegistered) && *final(self) == *old(self),
            old(self).is_owner(caller@) && old(self).has_agent(account_id@) ==> {
                &&& r matches Ok(ev) && ev.account_id@ == account_id@ && ev.reasons@ == seq![
                    AgentRemovalReason::ManualRemoval,
                ]
                &&& *final(self) == (Contract { agents: final(self).agents, ..*old(self) })
                &&& !final(self).has_agent(account_id@)
                &&& old(self).agents_unchanged_except(*final(self), account_id@)
            },
    {
        if !self.check_owner(caller) {
            return Err(ContractError::NotOwner);
        }
        match find_agent_ix(&self.agents, &account_id) {
            None => Err(ContractError::NotRegistered),
            Some(i) => {
                proof {
                    lemma_key_at(self.agents@, account_id@, i as int);
                    lemma_remove_key(self.agents@, i as int);
                }
                self.agents.remove(i);
                let mut reasons: Vec<AgentRemovalReason> = Vec::new();
                reasons.push(AgentRemovalReason::ManualRemoval);
                proof {
                    assert(reasons@ =~= seq![AgentRemovalReason::ManualRemoval]);
                }
                Ok(AgentRemovedEvent { account_id, reasons })
            },
        }
    }

    /// Stores (or overwrites) the agent record for an identity.
    pub(crate) fn put_agent(&mut self, account_id: &AccountId, agent: Agent)
        requires
            old(self).wf(),
        ensures
            final(self).wf(),
            *final(self) == (Contract { agents: final(self).agents, ..*old(self) }),
            final(self).has_agent(account_id@),
            final(self).agent_for(account_id@) == agent,
            old(self).agents_unchanged_except(*final(self), account_id@),
    {
        match find_agent_ix(&self.agents, account_id) {
            Some(i) => {
                proof {
                    lemma_key_at(self.agents@, account_id@, i as int);
                    lemma_remove_key(self.agents@, i as int);
                }
                self.agents.remove(i);
            },
            None => {},
        }
        let entry = AgentEntry { account_id: account_id.clone(), agent };
        proof {
            lemma_push_key(self.agents@, entry);
        }
        self.agents.push(entry);
    }
}

// ---------------------------------------------------------------------------
// Authorization gate
// ---------------------------------------------------------------------------

impl Contract {
    /// The call-time re-check of a stored agent record.  Looks the record
    /// up (absence is `NotRegistered`, a hard failure distinct from gate
    /// failure), evaluates all validity conditions independently, and on
    /// any failure deletes the record and reports every reason at once —
    /// the carried reason list is the emitted removal event.
    pub fn require_valid_agent(&mut self, caller: &AccountId, now_ms: u64) -> (r: Result<
        (),
        ContractError,
    >)
        requires
            old(self).wf(),
        ensures
            final(self).wf(),
            !old(self).has_agent(caller@) ==> r == Err::<(), ContractError>(
                ContractError::NotRegistered,
            ) && *final(self) == *old(self),
            old(self).has_agent(caller@) ==> ({
                let a = old(self).agent_for(caller@);
                let reasons = old(self).gate_reasons(a, caller@, now_ms);
                if reasons.len() == 0 {
                    r is Ok && *final(self) == *old(self)
                } else {
                    &&& r matches Err(ContractError::AgentInvalid(v)) && v@ == reasons
                    &&& *final(self) == (Contract { agents: final(self).agents, ..*old(self) })
                    &&& !final(self).has_agent(caller@)
                    &&& old(self).agents_unchanged_except(*final(self), caller@)
                }
            }),
    {
        let ix = match find_agent_ix(&self.agents, caller) {
            None => {
                return Err(ContractError::NotRegistered);
            },
            Some(i) => i,
        };
        proof {
            lemma_key_at(self.agents@, caller@, ix as int);
        }
        let a = self.agents[ix].agent;

        let mut reasons: Vec<AgentRemovalReason> = Vec::new();
        if a.valid_until_ms < now_ms {
            reasons.push(AgentRemovalReason::ExpiredAttestation);
        }
        if !contains_measurements(&self.approved_measurements, &a.measurements) {
            reasons.push(AgentRemovalReason::InvalidMeasurements);
        }
        if !contains_ppid(&self.approved_ppids, &a.ppid) {
            reasons.push(AgentRemovalReason::InvalidPpid);
        }
        if !self.requires_tee && !contains_account(&self.whitelisted_agents_for_local, caller) {
            reasons.push(AgentRemovalReason::NotWhitelistedForLocal);
        }
        proof {
            assert(reasons@ =~= self.gate_reasons(a, caller@, now_ms));
        }

        if reasons.len() == 0 {
            Ok(())
        } else {
            proof {
                lemma_remove_key(self.agents@, ix as int);
            }
            self.agents.remove(ix);
            Err(ContractError::AgentInvalid(reasons))
        }
    }
}

// ---------------------------------------------------------------------------
// Signature dispatcher
// ---------------------------------------------------------------------------

/// The closed set of key types the downstream signer understands.
#[derive(Clone, Copy, Debug, PartialEq, Eq)]
pub enum KeyType {
    Ecdsa,
    Eddsa,
}

/// The key type a request string denotes, if any.
pub open spec fn spec_parse_key_type(s: Seq<char>) -> Option<KeyType> {
    if s == "Ecdsa"@ {
        Some(KeyType::Ecdsa)
    } else if s == "Eddsa"@ {
        Some(KeyType::Eddsa)
    } else {
        None
    }
}

impl KeyType {
    /// The numeric domain discriminator the downstream signer expects.
    pub open spec fn spec_domain_id(self) -> u32 {
        match self {
            KeyType::Ecdsa => 0u32,
            KeyType::Eddsa => 1u32,
        }
    }

    /// Maps the key type to the signer's numeric domain discriminator.
    pub fn domain_id(&self) -> (d: u32)
        ensures
            d == self.spec_domain_id(),
    {
        match self {
            KeyType::Ecdsa => 0,
            KeyType::Eddsa => 1,
        }
    }
}

/// Parses a request's key-type string; anything but `Ecdsa` or `Eddsa` is
/// rejected.
pub fn parse_key_type(key_type: &String) -> (r: Option<KeyType>)
    ensures
        r == spec_parse_key_type(key_type@),
{
    proof {
        reveal_strlit("Ecdsa");
        reveal_strlit("Eddsa");
    }
    if *key_type == "Ecdsa".to_owned() {
        Some(KeyType::Ecdsa)
    } else if *key_type == "Eddsa".to_owned() {
        Some(KeyType::Eddsa)
    } else {
        None
    }
}

/// The one delegated call this contract issues: a signature request to be
/// forwarded to the downstream signer.  Producing this value is
/// fire-and-forget from the core's point of view; performing the call is
/// the host environment's business.
#[derive(Clone, Debug)]
pub struct SignatureRequest {
    /// The signer endpoint to call (the current `mpc_contract_id`).
    pub target: AccountId,
    /// The authorized agent on whose behalf the signature is requested.
    pub requester: AccountId,
    /// The key-derivation path.
    pub path: String,
    /// The payload to sign.
    pub payload: String,
    /// The signer's numeric domain discriminator for the key type.
    pub domain_id: u32,
}

impl Contract {
    /// The privileged operation: re-validates the caller's agent record
    /// through the authorization gate and maps the request onto the
    /// downstream signer's wire format.  An invalid key type is rejected
    /// before any state is touched; a gate failure deletes the caller's
    /// record and reports every reason at once.
    pub fn request_signature(
        &mut self,
        caller: &AccountId,
        path: String,
        payload: String,
        key_type: String,
        now_ms: u64,
    ) -> (r: Result<SignatureRequest, ContractError>)
        requires
            old(self).wf(),
        ensures
            final(self).wf(),
            spec_parse_key_type(key_type@) is None ==> r == Err::<SignatureRequest, ContractError>(
                ContractError::InvalidKeyType,
            ) && *final(self) == *old(self),
            spec_parse_key_type(key_type@) is Some && !old(self).has_agent(caller@) ==> r == Err::<
                SignatureRequest,
                ContractError,
            >(ContractError::NotRegistered) && *final(self) == *old(self),
            spec_parse_key_type(key_type@) is Some && old(self).has_agent(caller@) ==> ({
                let a = old(self).agent_for(caller@);
                let reasons = old(self).gate_reasons(a, caller@, now_ms);
                if reasons.len() == 0 {
                    &&& *final(self) == *old(self)
                    &&& r matches Ok(q) && q.target@ == old(self).mpc_contract_id@ && q.requester@
                        == caller@ && q.path@ == path@ && q.payload@ == payload@ && q.domain_id
                        == spec_parse_key_type(key_type@).unwrap().spec_domain_id()
                } else {
                    &&& r matches Err(e) && e matches ContractError::AgentInvalid(v) && v@
                        == reasons
                    &&& *final(self) == (Contract { agents: final(self).agents, ..*old(self) })
                    &&& !final(self).has_agent(caller@)
                    &&& old(self).agents_unchanged_except(*final(self), caller@)
                }
            }),
    {
        let kt = match parse_key_type(&key_type) {
            None => {
                return Err(ContractError::InvalidKeyType);
            },
            Some(kt) => kt,
        };
        match self.require_valid_agent(caller, now_ms) {
            Err(e) => Err(e),
            Ok(()) => Ok(
                SignatureRequest {
                    target: self.mpc_contract_id.clone(),
                    requester: caller.clone(),
                    path,
                    payload,
                    domain_id: kt.domain_id(),
                },
            ),
        }
    }
}

/// Addition on `u64` that stops at the largest value instead of wrapping.
pub open spec fn spec_saturating_add_u64(a: u64, b: u64) -> u64 {
    if a + b <= u64::MAX {
        (a + b) as u64
    } else {
        u64::MAX
    }
}

/// Adds two durations or instants without overflow.
pub fn saturating_add_u64(a: u64, b: u64) -> (r: u64)
    ensures
        r == spec_saturating_add_u64(a, b),
{
    if a <= u64::MAX - b {
        a + b
    } else {
        u64::MAX
    }
}

} // verus!

