//! The read-only surface: contract info, per-agent views with re-derived
//! validity flags, and paginated listings.  Nothing here mutates state.

use vstd::prelude::*;

use crate::AccountId;
use crate::contract::{Agent, Contract, find_agent_ix, lemma_key_at};
use crate::measurements::{FullMeasurements, Ppid};

verus! {

/// The contract's configuration, as one readable value.
#[derive(Clone, Debug)]
pub struct ContractInfo {
    pub requires_tee: bool,
    pub attestation_expiration_time_ms: u64,
    pub owner_id: AccountId,
    pub mpc_contract_id: AccountId,
}

/// A registered agent together with its validity conditions, re-derived
/// against the current approval sets and clock without mutating anything —
/// unlike the authorization gate, reading an invalid agent does not revoke
/// it.
#[derive(Clone, Debug)]
pub struct AgentView {
    pub account_id: AccountId,
    pub measurements: FullMeasurements,
    pub measurements_are_approved: bool,
    pub ppid: Ppid,
    pub ppid_is_approved: bool,
    pub valid_until_ms: u64,
    pub timestamp_is_valid: bool,
    pub is_valid: bool,
}

/// The view faithfully reflects the record `a` stored under `id` and the
/// approval sets of `c` as of `now_ms`.
pub open spec fn agent_view_ok(
    c: Contract,
    id: Seq<char>,
    a: Agent,
    v: AgentView,
    now_ms: u64,
) -> bool {
    &&& v.account_id@ == id
    &&& v.measurements == a.measurements
    &&& v.ppid == a.ppid
    &&& v.valid_until_ms == a.valid_until_ms
    &&& v.measurements_are_approved == c.measurements_approved(a.measurements)
    &&& v.ppid_is_approved == c.ppid_approved(a.ppid)
    &&& v.timestamp_is_valid == (a.valid_until_ms > now_ms)
    &&& v.is_valid == (c.measurements_approved(a.measurements) && c.ppid_approved(a.ppid)
        && a.valid_until_ms > now_ms)
}

/// One page of a listing: the elements from `from` on, at most `lim` many.
pub open spec fn spec_page<T>(s: Seq<T>, from: int, lim: int) -> Seq<T> {
    let lo = if from <= s.len() {
        from
    } else {
        s.len() as int
    };
    let hi = if from + lim <= s.len() {
        from + lim
    } else {
        s.len() as int
    };
    if lo <= hi {
        s.subrange(lo, hi)
    } else {
        Seq::empty()
    }
}

/// The effective start index of a paginated read.
pub open spec fn spec_from(from_index: Option<u32>) -> int {
    match from_index {
        Some(f) => f as int,
        None => 0,
    }
}

/// The effective page size of a paginated read over `n` elements.
pub open spec fn spec_limit(limit: Option<u32>, n: int) -> int {
    match limit {
        Some(l) => l as int,
        None => n,
    }
}

impl Contract {
    /// Whether registration demands hardware attestation.
    pub fn get_requires_tee(&self) -> (r: bool)
        ensures
            r == self.requires_tee,
    {
        self.requires_tee
    }

    /// The contract's configuration.
    pub fn get_contract_info(&self) -> (r: ContractInfo)
        ensures
            r.requires_tee == self.requires_tee,
            r.attestation_expiration_time_ms == self.attestation_expiration_time_ms,
            r.owner_id@ == self.owner_id@,
            r.mpc_contract_id@ == self.mpc_contract_id@,
    {
        ContractInfo {
            requires_tee: self.requires_tee,
            attestation_expiration_time_ms: self.attestation_expiration_time_ms,
            owner_id: self.owner_id.clone(),
            mpc_contract_id: self.mpc_contract_id.clone(),
        }
    }

    /// The approved platform ids.
    pub fn get_approved_ppids(&self) -> (r: Vec<Ppid>)
        ensures
            r@ == self.approved_ppids@,
    {
        let n = self.approved_ppids.len();
        let mut out: Vec<Ppid> = Vec::new();
        let mut i: usize = 0;
        while i < n
            invariant
                n == self.approved_ppids@.len(),
                i <= n,
                out@ == self.approved_ppids@.take(i as int),
            decreases n - i,
        {
            out.push(self.approved_ppids[i]);
            proof {
                assert(out@ =~= self.approved_ppids@.take(i as int + 1));
            }
            i += 1;
        }
        proof {
            assert(self.approved_ppids@.take(n as int) =~= self.approved_ppids@);
        }
        out
    }

    /// One page of the approved measurement bundles, in the list's stable
    /// order.
    pub fn get_approved_measurements(&self, from_index: &Option<u32>, limit: &Option<u32>) -> (r:
        Vec<FullMeasurements>)
        ensures
            r@ == spec_page(
                self.approved_measurements@,
                spec_from(*from_index),
                spec_limit(*limit, self.approved_measurements@.len() as int),
            ),
    {
        let n = self.approved_measurements.len();
        let from: usize = match from_index {
            Some(f) => *f as usize,
            None => 0,
        };
        let lo = if from <= n {
            from
        } else {
            n
        };
        let hi = match limit {
            Some(l) => {
                if (*l as usize) <= n - lo {
                    lo + (*l as usize)
                } else {
                    n
                }
            },
            None => n,
        };
        let mut out: Vec<FullMeasurements> = Vec::new();
        let mut i: usize = lo;
        while i < hi
            invariant
                lo <= i,
                i <= hi,
                hi <= n,
                n == self.approved_measurements@.len(),
                out@ == self.approved_measurements@.subrange(lo as int, i as int),
            decreases hi - i,
        {
            out.push(self.approved_measurements[i]);
            proof {
                assert(out@ =~= self.approved_measurements@.subrange(lo as int, i as int + 1));
            }
            i += 1;
        }
        proof {
            assert(out@ =~= spec_page(
                self.approved_measurements@,
                spec_from(*from_index),
                spec_limit(*limit, self.approved_measurements@.len() as int),
            ));
        }
        out
    }

    /// The view of the record `a` stored under `account_id`.
    fn make_agent_view(&self, account_id: &AccountId, a: &Agent, now_ms: u64) -> (v: AgentView)
        ensures
            agent_view_ok(*self, account_id@, *a, v, now_ms),
    {
        let measurements_are_approved = crate::contract::contains_measurements(
            &self.approved_measurements,
            &a.measurements,
        );
        let ppid_is_approved = crate::contract::contains_ppid(&self.approved_ppids, &a.ppid);
        let timestamp_is_valid = a.valid_until_ms > now_ms;
        AgentView {
            account_id: account_id.clone(),
            measurements: a.measurements,
            measurements_are_approved,
            ppid: a.ppid,
            ppid_is_approved,
            valid_until_ms: a.valid_until_ms,
            timestamp_is_valid,
            is_valid: measurements_are_approved && ppid_is_approved && timestamp_is_valid,
        }
    }

    /// The registered agent's details, if any, with validity re-derived as
    /// of `now_ms`.  A pure read: nothing is revoked here.
    pub fn get_agent(&self, account_id: AccountId, now_ms: u64) -> (r: Option<AgentView>)
        requires
            self.wf(),
        ensures
            match r {
                Some(v) => self.has_agent(account_id@) && agent_view_ok(
                    *self,
                    account_id@,
                    self.agent_for(account_id@),
                    v,
                    now_ms,
                ),
                None => !self.has_agent(account_id@),
            },
    {
        match find_agent_ix(&self.agents, &account_id) {
            None => None,
            Some(i) => {
                let a = self.agents[i].agent;
                proof {
                    lemma_key_at(self.agents@, account_id@, i as int);
                }
                Some(self.make_agent_view(&account_id, &a, now_ms))
            },
        }
    }

    /// One page of the registered agents' views, in registration order.
    pub fn get_agents(&self, from_index: &Option<u32>, limit: &Option<u32>, now_ms: u64) -> (r: Vec<
        AgentView,
    >)
        ensures
            r@.len() == spec_page(
                self.agents@,
                spec_from(*from_index),
                spec_limit(*limit, self.agents@.len() as int),
            ).len(),
            forall|k: int|
                0 <= k < r@.len() ==> ({
                    let e = spec_page(
                        self.agents@,
                        spec_from(*from_index),
                        spec_limit(*limit, self.agents@.len() as int),
                    )[k];
                    agent_view_ok(*self, e.account_id@, e.agent, #[trigger] r@[k], now_ms)
                }),
    {
        let n = self.agents.len();
        let from: usize = match from_index {
            Some(f) => *f as usize,
            None => 0,
        };
        let lo = if from <= n {
            from
        } else {
            n
        };
        let hi = match limit {
            Some(l) => {
                if (*l as usize) <= n - lo {
                    lo + (*l as usize)
                } else {
                    n
                }
            },
            None => n,
        };
        let ghost page = spec_page(
            self.agents@,
            spec_from(*from_index),
            spec_limit(*limit, self.agents@.len() as int),
        );
        proof {
            assert(page =~= self.agents@.subrange(lo as int, hi as int));
        }
        let mut out: Vec<AgentView> = Vec::new();
        let mut i: usize = lo;
        while i < hi
            invariant
                lo <= i,
                i <= hi,
                hi <= n,
                n == self.agents@.len(),
                page == self.agents@.subrange(lo as int, hi as int),
                out@.len() == i - lo,
                forall|k: int|
                    0 <= k < out@.len() ==> agent_view_ok(
                        *self,
                        self.agents@[lo + k].account_id@,
                        self.agents@[lo + k].agent,
                        #[trigger] out@[k],
                        now_ms,
                    ),
            decreases hi - i,
        {
            let entry_account = self.agents[i].account_id.clone();
            let a = self.agents[i].agent;
            let v = self.make_agent_view(&entry_account, &a, now_ms);
            out.push(v);
            i += 1;
        }
        proof {
            assert forall|k: int| 0 <= k < out@.len() implies ({
                let e = page[k];
                agent_view_ok(*self, e.account_id@, e.agent, #[trigger] out@[k], now_ms)
            }) by {
                assert(page[k] == self.agents@[lo + k]);
            }
        }
        out
    }

    /// The identities whitelisted for local registration; meaningful only
    /// while hardware attestation is disabled.
    pub fn get_whitelisted_agents_for_local(&self) -> (r: Vec<AccountId>)
        requires
            !self.requires_tee,
        ensures
            r@.len() == self.whitelisted_agents_for_local@.len(),
            forall|k: int|
                0 <= k < r@.len() ==> #[trigger] r@[k]@
                    == self.whitelisted_agents_for_local@[k]@,
    {
        let n = self.whitelisted_agents_for_local.len();
        let mut out: Vec<AccountId> = Vec::new();
        let mut i: usize = 0;
        while i < n
            invariant
                n == self.whitelisted_agents_for_local@.len(),
                i <= n,
                out@.len() == i,
                forall|k: int|
                    0 <= k < i ==> #[trigger] out@[k]@
                        == self.whitelisted_agents_for_local@[k]@,
            decreases n - i,
        {
            out.push(self.whitelisted_agents_for_local[i].clone());
            i += 1;
        }
        out
    }
}

} // verus!
