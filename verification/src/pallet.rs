//! The bridge's persisted state and its operations: configuration of the
//! reputation source and mirror endpoints, sync initiation, the
//! confirmation callbacks, and the reads over the registry.

use vstd::prelude::*;

use crate::channel::OutboundChannel;
use crate::codec::{encode_reputation_payload, spec_encode};
use crate::hashing::{compute_request_id, spec_request_id_of};
use crate::registry::{
    lemma_lookup_assoc_push, lemma_lookup_assoc_update, lemma_lookup_sync_properties,
    lemma_lookup_sync_push, lookup_assoc, lookup_sync, unique_ids,
};
use crate::source::ReputationSource;
use crate::types::{
    CrossChainSync, Error, Event, OutboundPost, StateMachine, SyncStatus, TenantReputationData,
    H160, H256, SYNC_TIMEOUT_BLOCKS,
};

verus! {

/// The shape checks initiation applies to whatever the reputation source
/// returns: the snapshot must describe the requested subject and keep
/// the score within its conventional bound.
pub open spec fn spec_valid_snapshot(s: TenantReputationData, tenant: H160) -> bool {
    s.tenant_address == tenant && s.reputation <= 100
}

/// Decides the shape checks for a snapshot the source handed back.
pub fn valid_snapshot(s: &TenantReputationData, tenant: H160) -> (r: bool)
    ensures
        r == spec_valid_snapshot(*s, tenant),
{
    s.tenant_address == tenant && s.reputation <= 100
}

/// The bridge's entire persisted state: two configuration values and the
/// two registry maps. Records are only ever appended, and only their
/// status field ever changes afterwards.
pub struct Pallet {
    /// The configured reputation-source (tenant passport) contract
    /// address.
    pub tenant_passport_address: Option<H160>,
    /// The registered mirror contract per destination chain.
    pub mirror_contracts: Vec<(StateMachine, H160)>,
    /// The append-only sync registry.
    pub syncs: Vec<CrossChainSync>,
    /// The most recent request identity per subject.
    pub last_sync: Vec<(H160, H256)>,
}

impl Pallet {
    /// `j` is the most recently initiated record for subject `s`.
    pub open spec fn is_last_record_for(self, j: int, s: H160) -> bool {
        &&& 0 <= j < self.syncs@.len()
        &&& self.syncs@[j].tenant == s
        &&& forall|k: int| j < k < self.syncs@.len() ==> self.syncs@[k].tenant != s
    }

    /// The index points each indexed subject at its most recently
    /// initiated record.
    pub open spec fn index_points_at_latest(self) -> bool {
        forall|t: H160|
            (#[trigger] lookup_assoc(self.last_sync@, t)) matches Some(id) ==> exists|j: int|
                self.is_last_record_for(j, t) && self.syncs@[j].request_id == id
    }

    /// Every recorded subject is indexed.
    pub open spec fn every_subject_indexed(self) -> bool {
        forall|j: int|
            0 <= j < self.syncs@.len() ==> lookup_assoc(
                self.last_sync@,
                (#[trigger] self.syncs@[j]).tenant,
            ) is Some
    }

    /// A pending record is its subject's indexed record; with unique
    /// identities this bounds each subject to at most one pending sync.
    pub open spec fn pending_is_latest(self) -> bool {
        forall|j: int|
            0 <= j < self.syncs@.len() && (#[trigger] self.syncs@[j]).status
                == SyncStatus::Pending ==> lookup_assoc(self.last_sync@, self.syncs@[j].tenant)
                == Some(self.syncs@[j].request_id)
    }

    /// The registry invariants, established by `new` and preserved by
    /// every operation.
    pub open spec fn wf(self) -> bool {
        &&& unique_ids(self.syncs@)
        &&& self.index_points_at_latest()
        &&& self.every_subject_indexed()
        &&& self.pending_is_latest()
    }

    /// A reputation-source address is configured.
    pub open spec fn spec_source_configured(self) -> bool {
        self.tenant_passport_address is Some
    }

    /// The mirror contract registered for a chain.
    pub open spec fn spec_mirror_of(self, chain: StateMachine) -> Option<H160> {
        lookup_assoc(self.mirror_contracts@, chain)
    }

    /// The subject's most recent request identity.
    pub open spec fn spec_last_sync_of(self, tenant: H160) -> Option<H256> {
        lookup_assoc(self.last_sync@, tenant)
    }

    /// The record under a request identity.
    pub open spec fn spec_sync_of(self, id: H256) -> Option<CrossChainSync> {
        lookup_sync(self.syncs@, id)
    }

    /// The subject's most recent sync exists and is still pending.
    pub open spec fn spec_sync_in_progress(self, tenant: H160) -> bool {
        match self.spec_last_sync_of(tenant) {
            Some(id) => match self.spec_sync_of(id) {
                Some(r) => r.status == SyncStatus::Pending,
                None => false,
            },
            None => false,
        }
    }

    /// The registry invariants depend on the two registry maps alone:
    /// configuration changes cannot disturb them.
    pub proof fn lemma_wf_same_registry(a: Pallet, b: Pallet)
        requires
            a.wf(),
            b.syncs@ == a.syncs@,
            b.last_sync@ == a.last_sync@,
        ensures
            b.wf(),
    {
        assert(unique_ids(b.syncs@));
        assert forall|t: H160| (#[trigger] lookup_assoc(b.last_sync@, t)) is Some implies exists|
            j: int,
        | b.is_last_record_for(j, t) && b.syncs@[j].request_id == lookup_assoc(
            b.last_sync@,
            t,
        )->Some_0 by {
            let v = lookup_assoc(a.last_sync@, t)->Some_0;
            let j = choose|j: int| a.is_last_record_for(j, t) && a.syncs@[j].request_id == v;
            assert(a.is_last_record_for(j, t) && a.syncs@[j].request_id == v);
            assert forall|k: int| j < k < b.syncs@.len() implies (#[trigger] b.syncs@[k]).tenant
                != t by {
                assert(b.syncs@[k] == a.syncs@[k]);
            }
            assert(b.syncs@[j] == a.syncs@[j]);
            assert(b.is_last_record_for(j, t));
        }
        assert(b.index_points_at_latest());
        assert forall|j: int| 0 <= j < b.syncs@.len() implies lookup_assoc(
            b.last_sync@,
            (#[trigger] b.syncs@[j]).tenant,
        ) is Some by {
            assert(a.syncs@[j] == b.syncs@[j]);
        }
        assert forall|j: int|
            0 <= j < b.syncs@.len() && (#[trigger] b.syncs@[j]).status
                == SyncStatus::Pending implies lookup_assoc(b.last_sync@, b.syncs@[j].tenant)
            == Some(b.syncs@[j].request_id) by {
            assert(a.syncs@[j] == b.syncs@[j]);
        }
    }

    /// Moving one record out of `Pending` — its identity, subject and
    /// position untouched — preserves the registry invariants.
    pub proof fn lemma_wf_after_status_change(a: Pallet, b: Pallet, i: int, r2: CrossChainSync)
        requires
            a.wf(),
            0 <= i < a.syncs@.len(),
            r2.request_id == a.syncs@[i].request_id,
            r2.tenant == a.syncs@[i].tenant,
            r2.status != SyncStatus::Pending,
            b.syncs@ == a.syncs@.update(i, r2),
            b.last_sync@ == a.last_sync@,
        ensures
            b.wf(),
    {
        assert forall|k: int| 0 <= k < b.syncs@.len() implies (#[trigger] b.syncs@[k]).request_id
            == a.syncs@[k].request_id && b.syncs@[k].tenant == a.syncs@[k].tenant by {
            if k != i {
                assert(b.syncs@[k] == a.syncs@[k]);
            }
        }
        assert forall|i2: int, j2: int|
            0 <= i2 < b.syncs@.len() && 0 <= j2 < b.syncs@.len() && (#[trigger] b.syncs@[i2]).request_id
                == (#[trigger] b.syncs@[j2]).request_id implies i2 == j2 by {
            assert(a.syncs@[i2].request_id == a.syncs@[j2].request_id);
        }
        assert forall|t: H160| (#[trigger] lookup_assoc(b.last_sync@, t)) is Some implies exists|
            j: int,
        | b.is_last_record_for(j, t) && b.syncs@[j].request_id == lookup_assoc(
            b.last_sync@,
            t,
        )->Some_0 by {
            let v = lookup_assoc(a.last_sync@, t)->Some_0;
            let j = choose|j: int| a.is_last_record_for(j, t) && a.syncs@[j].request_id == v;
            assert(a.is_last_record_for(j, t) && a.syncs@[j].request_id == v);
            assert(b.is_last_record_for(j, t));
        }
        assert(b.index_points_at_latest());
        assert forall|j: int| 0 <= j < b.syncs@.len() implies lookup_assoc(
            b.last_sync@,
            (#[trigger] b.syncs@[j]).tenant,
        ) is Some by {
            assert(b.syncs@[j].tenant == a.syncs@[j].tenant);
        }
        assert forall|j: int|
            0 <= j < b.syncs@.len() && (#[trigger] b.syncs@[j]).status
                == SyncStatus::Pending implies lookup_assoc(b.last_sync@, b.syncs@[j].tenant)
            == Some(b.syncs@[j].request_id) by {
            assert(j != i);
            assert(b.syncs@[j] == a.syncs@[j]);
        }
    }

    /// An empty bridge: nothing configured, nothing recorded.
    pub fn new() -> (p: Pallet)
        ensures
            p.wf(),
            p.tenant_passport_address is None,
            p.mirror_contracts@.len() == 0,
            p.syncs@.len() == 0,
            p.last_sync@.len() == 0,
    {
        Pallet {
            tenant_passport_address: None,
            mirror_contracts: Vec::new(),
            syncs: Vec::new(),
            last_sync: Vec::new(),
        }
    }

    /// The configured reputation-source address, if any.
    pub fn get_tenant_passport_address(&self) -> (r: Option<H160>)
        ensures
            r == self.tenant_passport_address,
    {
        self.tenant_passport_address
    }

    /// The mirror contract registered for a chain, if any.
    #[verifier::loop_isolation(false)]
    pub fn get_mirror_contract(&self, chain: StateMachine) -> (r: Option<H160>)
        ensures
            r == self.spec_mirror_of(chain),
    {
        proof {
            assert(self.mirror_contracts@.skip(0) =~= self.mirror_contracts@);
        }
        let mut i: usize = 0;
        while i < self.mirror_contracts.len()
            invariant
                i <= self.mirror_contracts@.len(),
                lookup_assoc(self.mirror_contracts@, chain) == lookup_assoc(
                    self.mirror_contracts@.skip(i as int),
                    chain,
                ),
            decreases self.mirror_contracts@.len() - i,
        {
            proof {
                assert(self.mirror_contracts@.skip(i as int)[0] == self.mirror_contracts@[i as int]);
                assert(self.mirror_contracts@.skip(i as int).drop_first() =~= self.mirror_contracts@.skip(
                    i + 1,
                ));
            }
            if self.mirror_contracts[i].0 == chain {
                return Some(self.mirror_contracts[i].1);
            }
            i = i + 1;
        }
        proof {
            assert(self.mirror_contracts@.skip(i as int) =~= Seq::<(StateMachine, H160)>::empty());
        }
        None
    }

    /// The subject's most recent request identity, if any.
    #[verifier::loop_isolation(false)]
    pub fn get_last_sync(&self, tenant: H160) -> (r: Option<H256>)
        ensures
            r == self.spec_last_sync_of(tenant),
    {
        proof {
            assert(self.last_sync@.skip(0) =~= self.last_sync@);
        }
        let mut i: usize = 0;
        while i < self.last_sync.len()
            invariant
                i <= self.last_sync@.len(),
                lookup_assoc(self.last_sync@, tenant) == lookup_assoc(
                    self.last_sync@.skip(i as int),
                    tenant,
                ),
            decreases self.last_sync@.len() - i,
        {
            proof {
                assert(self.last_sync@.skip(i as int)[0] == self.last_sync@[i as int]);
                assert(self.last_sync@.skip(i as int).drop_first() =~= self.last_sync@.skip(i + 1));
            }
            if self.last_sync[i].0 == tenant {
                return Some(self.last_sync[i].1);
            }
            i = i + 1;
        }
        proof {
            assert(self.last_sync@.skip(i as int) =~= Seq::<(H160, H256)>::empty());
        }
        None
    }

    /// The record under a request identity, if any.
    #[verifier::loop_isolation(false)]
    pub fn get_sync(&self, request_id: H256) -> (r: Option<CrossChainSync>)
        ensures
            r == self.spec_sync_of(request_id),
    {
        proof {
            assert(self.syncs@.skip(0) =~= self.syncs@);
        }
        let mut i: usize = 0;
        while i < self.syncs.len()
            invariant
                i <= self.syncs@.len(),
                lookup_sync(self.syncs@, request_id) == lookup_sync(
                    self.syncs@.skip(i as int),
                    request_id,
                ),
            decreases self.syncs@.len() - i,
        {
            proof {
                assert(self.syncs@.skip(i as int)[0] == self.syncs@[i as int]);
                assert(self.syncs@.skip(i as int).drop_first() =~= self.syncs@.skip(i + 1));
            }
            if self.syncs[i].request_id == request_id {
                return Some(self.syncs[i]);
            }
            i = i + 1;
        }
        proof {
            assert(self.syncs@.skip(i as int) =~= Seq::<CrossChainSync>::empty());
        }
        None
    }

    /// The index of the record under a request identity, which is also
    /// the only index holding it while identities are unique.
    #[verifier::loop_isolation(false)]
    fn find_sync_index(&self, request_id: H256) -> (r: Option<usize>)
        ensures
            match r {
                Some(i) => {
                    &&& i < self.syncs@.len()
                    &&& self.syncs@[i as int].request_id == request_id
                    &&& forall|k: int| 0 <= k < i ==> self.syncs@[k].request_id != request_id
                },
                None => forall|k: int|
                    0 <= k < self.syncs@.len() ==> self.syncs@[k].request_id != request_id,
            },
    {
        let mut i: usize = 0;
        while i < self.syncs.len()
            invariant
                i <= self.syncs@.len(),
                forall|k: int| 0 <= k < i ==> self.syncs@[k].request_id != request_id,
            decreases self.syncs@.len() - i,
        {
            if self.syncs[i].request_id == request_id {
                return Some(i);
            }
            i = i + 1;
        }
        None
    }

    /// Stores the reputation-source contract address. Root only;
    /// overwrites unconditionally.
    pub fn set_tenant_passport_address(&mut self, is_root: bool, address: H160) -> (r: Result<
        Event,
        Error,
    >)
        requires
            old(self).wf(),
        ensures
            final(self).wf(),
            !is_root ==> r == Err::<Event, Error>(Error::Unauthorized) && *final(self) == *old(
                self,
            ),
            is_root ==> {
                &&& final(self).tenant_passport_address == Some(address)
                &&& final(self).mirror_contracts@ == old(self).mirror_contracts@
                &&& final(self).syncs@ == old(self).syncs@
                &&& final(self).last_sync@ == old(self).last_sync@
                &&& r == Ok::<Event, Error>(Event::TenantPassportConfigured { address })
            },
    {
        if !is_root {
            return Err(Error::Unauthorized);
        }
        self.tenant_passport_address = Some(address);
        proof {
            Self::lemma_wf_same_registry(*old(self), *self);
        }
        Ok(Event::TenantPassportConfigured { address })
    }

    /// Registers (or replaces) the mirror contract for a chain. Root
    /// only.
    #[verifier::loop_isolation(false)]
    pub fn register_mirror_contract(
        &mut self,
        is_root: bool,
        chain: StateMachine,
        contract_address: H160,
    ) -> (r: Result<Event, Error>)
        requires
            old(self).wf(),
        ensures
            final(self).wf(),
            !is_root ==> r == Err::<Event, Error>(Error::Unauthorized) && *final(self) == *old(
                self,
            ),
            is_root ==> {
                &&& final(self).spec_mirror_of(chain) == Some(contract_address)
                &&& forall|c: StateMachine|
                    c != chain ==> final(self).spec_mirror_of(c) == old(self).spec_mirror_of(c)
                &&& final(self).tenant_passport_address == old(self).tenant_passport_address
                &&& final(self).syncs@ == old(self).syncs@
                &&& final(self).last_sync@ == old(self).last_sync@
                &&& r == Ok::<Event, Error>(
                    Event::MirrorContractRegistered { chain, contract: contract_address },
                )
            },
    {
        if !is_root {
            return Err(Error::Unauthorized);
        }
        let mut i: usize = 0;
        while i < self.mirror_contracts.len()
            invariant
                i <= self.mirror_contracts@.len(),
                *self == *old(self),
                forall|k: int| 0 <= k < i ==> self.mirror_contracts@[k].0 != chain,
            decreases self.mirror_contracts@.len() - i,
        {
            if self.mirror_contracts[i].0 == chain {
                proof {
                    lemma_lookup_assoc_update(
                        self.mirror_contracts@,
                        i as int,
                        chain,
                        contract_address,
                    );
                }
                self.mirror_contracts[i] = (chain, contract_address);
                proof {
                    Self::lemma_wf_same_registry(*old(self), *self);
                }
                return Ok(Event::MirrorContractRegistered { chain, contract: contract_address });
            }
            i = i + 1;
        }
        proof {
            lemma_lookup_assoc_push(self.mirror_contracts@, chain, contract_address);
        }
        self.mirror_contracts.push((chain, contract_address));
        proof {
            Self::lemma_wf_same_registry(*old(self), *self);
        }
        Ok(Event::MirrorContractRegistered { chain, contract: contract_address })
    }

    /// Transport callback: the request was confirmed on the destination
    /// chain. Unknown identities are ignored; terminal records are left
    /// untouched and nothing is re-emitted (idempotent delivery).
    pub fn on_sync_confirmed(&mut self, request_id: H256) -> (r: Option<Event>)
        requires
            old(self).wf(),
        ensures
            final(self).wf(),
            final(self).tenant_passport_address == old(self).tenant_passport_address,
            final(self).mirror_contracts@ == old(self).mirror_contracts@,
            final(self).last_sync@ == old(self).last_sync@,
            old(self).spec_sync_of(request_id) is None ==> *final(self) == *old(self) && r
                is None,
            old(self).spec_sync_of(request_id) matches Some(rec) ==> {
                &&& rec.status != SyncStatus::Pending ==> *final(self) == *old(self) && r is None
                &&& rec.status == SyncStatus::Pending ==> {
                    &&& final(self).spec_sync_of(request_id) == Some(
                        CrossChainSync {
                            request_id: rec.request_id,
                            tenant: rec.tenant,
                            destination: rec.destination,
                            status: SyncStatus::Confirmed,
                            initiated_at: rec.initiated_at,
                        },
                    )
                    &&& forall|id: H256|
                        id != request_id ==> final(self).spec_sync_of(id) == old(
                            self,
                        ).spec_sync_of(id)
                    &&& final(self).syncs@.len() == old(self).syncs@.len()
                    &&& r == Some(
                        Event::ReputationSyncConfirmed { request_id, tenant: rec.tenant },
                    )
                }
            },
    {
        let found = self.find_sync_index(request_id);
        match found {
            None => {
                proof {
                    crate::registry::lemma_lookup_sync_properties(self.syncs@, request_id);
                }
                None
            },
            Some(i) => {
                let rec = self.syncs[i];
                proof {
                    crate::registry::lemma_lookup_sync_at_first(self.syncs@, i as int);
                }
                if rec.status != SyncStatus::Pending {
                    return None;
                }
                let updated = CrossChainSync {
                    request_id: rec.request_id,
                    tenant: rec.tenant,
                    destination: rec.destination,
                    status: SyncStatus::Confirmed,
                    initiated_at: rec.initiated_at,
                };
                proof {
                    crate::registry::lemma_lookup_sync_update(self.syncs@, i as int, updated);
                }
                self.syncs[i] = updated;
                proof {
                    Self::lemma_wf_after_status_change(*old(self), *self, i as int, updated);
                }
                Some(Event::ReputationSyncConfirmed { request_id, tenant: rec.tenant })
            },
        }
    }

    /// Transport callback: the request failed, with the transport's
    /// opaque reason. Unknown identities are ignored; terminal records
    /// are left untouched and nothing is re-emitted (idempotent
    /// delivery).
    pub fn on_sync_failed(&mut self, request_id: H256, reason: Vec<u8>) -> (r: Option<Event>)
        requires
            old(self).wf(),
        ensures
            final(self).wf(),
            final(self).tenant_passport_address == old(self).tenant_passport_address,
            final(self).mirror_contracts@ == old(self).mirror_contracts@,
            final(self).last_sync@ == old(self).last_sync@,
            old(self).spec_sync_of(request_id) is None ==> *final(self) == *old(self) && r
                is None,
            old(self).spec_sync_of(request_id) matches Some(rec) ==> {
                &&& rec.status != SyncStatus::Pending ==> *final(self) == *old(self) && r is None
                &&& rec.status == SyncStatus::Pending ==> {
                    &&& final(self).spec_sync_of(request_id) == Some(
                        CrossChainSync {
                            request_id: rec.request_id,
                            tenant: rec.tenant,
                            destination: rec.destination,
                            status: SyncStatus::Failed,
                            initiated_at: rec.initiated_at,
                        },
                    )
                    &&& forall|id: H256|
                        id != request_id ==> final(self).spec_sync_of(id) == old(
                            self,
                        ).spec_sync_of(id)
                    &&& final(self).syncs@.len() == old(self).syncs@.len()
                    &&& (r matches Some(e) && e matches Event::ReputationSyncFailed {
                        request_id: rid,
                        tenant: tn,
                        reason: rs,
                    } && rid == request_id && tn == rec.tenant && rs@ == reason@)
                }
            },
    {
        let found = self.find_sync_index(request_id);
        match found {
            None => {
                proof {
                    crate::registry::lemma_lookup_sync_properties(self.syncs@, request_id);
                }
                None
            },
            Some(i) => {
                let rec = self.syncs[i];
                proof {
                    crate::registry::lemma_lookup_sync_at_first(self.syncs@, i as int);
                }
                if rec.status != SyncStatus::Pending {
                    return None;
                }
                let updated = CrossChainSync {
                    request_id: rec.request_id,
                    tenant: rec.tenant,
                    destination: rec.destination,
                    status: SyncStatus::Failed,
                    initiated_at: rec.initiated_at,
                };
                proof {
                    crate::registry::lemma_lookup_sync_update(self.syncs@, i as int, updated);
                }
                self.syncs[i] = updated;
                proof {
                    Self::lemma_wf_after_status_change(*old(self), *self, i as int, updated);
                }
                Some(Event::ReputationSyncFailed { request_id, tenant: rec.tenant, reason })
            },
        }
    }

    /// The subject's most recent sync exists and is still pending.
    fn is_sync_in_progress(&self, tenant: H160) -> (r: bool)
        ensures
            r == self.spec_sync_in_progress(tenant),
    {
        match self.get_last_sync(tenant) {
            None => false,
            Some(id) => match self.get_sync(id) {
                None => false,
                Some(rec) => rec.status == SyncStatus::Pending,
            },
        }
    }

    /// Appending a fresh pending record for a subject with no pending
    /// sync, while repointing only that subject's index at it, preserves
    /// the registry invariants.
    pub proof fn lemma_wf_after_commit(a: Pallet, b: Pallet, rec: CrossChainSync)
        requires
            a.wf(),
            rec.status == SyncStatus::Pending,
            lookup_sync(a.syncs@, rec.request_id) is None,
            !a.spec_sync_in_progress(rec.tenant),
            b.syncs@ == a.syncs@.push(rec),
            lookup_assoc(b.last_sync@, rec.tenant) == Some(rec.request_id),
            forall|t: H160|
                t != rec.tenant ==> lookup_assoc(b.last_sync@, t) == lookup_assoc(a.last_sync@, t),
        ensures
            b.wf(),
    {
        let n = a.syncs@.len() as int;
        lemma_lookup_sync_properties(a.syncs@, rec.request_id);
        // No record of this subject is still pending.
        assert forall|k: int|
            0 <= k < n && (#[trigger] a.syncs@[k]).tenant == rec.tenant implies a.syncs@[k].status
            != SyncStatus::Pending by {
            if a.syncs@[k].status == SyncStatus::Pending {
                let idk = a.syncs@[k].request_id;
                assert(lookup_assoc(a.last_sync@, rec.tenant) == Some(idk));
                lemma_lookup_sync_properties(a.syncs@, idk);
                let lr = lookup_sync(a.syncs@, idk);
                assert(lr is Some);
                let r = lr->Some_0;
                let i = choose|i: int| 0 <= i < a.syncs@.len() && a.syncs@[i] == r;
                assert(a.syncs@[i].request_id == idk && a.syncs@[k].request_id == idk);
                assert(i == k);
                assert(a.spec_sync_in_progress(rec.tenant));
            }
        }
        assert forall|i: int, j: int|
            0 <= i < b.syncs@.len() && 0 <= j < b.syncs@.len()
                && (#[trigger] b.syncs@[i]).request_id == (#[trigger] b.syncs@[j]).request_id
            implies i == j by {
            if i < n && j < n {
                assert(a.syncs@[i].request_id == a.syncs@[j].request_id);
            } else if i < n && j == n {
                assert(a.syncs@[i].request_id != rec.request_id);
            } else if i == n && j < n {
                assert(a.syncs@[j].request_id != rec.request_id);
            }
        }
        assert forall|t: H160| (#[trigger] lookup_assoc(b.last_sync@, t)) is Some implies exists|
            j: int,
        | b.is_last_record_for(j, t) && b.syncs@[j].request_id == lookup_assoc(
            b.last_sync@,
            t,
        )->Some_0 by {
            if t == rec.tenant {
                assert(b.syncs@[n] == rec);
                assert(b.is_last_record_for(n, t));
            } else {
                let v = lookup_assoc(a.last_sync@, t)->Some_0;
                let j = choose|j: int| a.is_last_record_for(j, t) && a.syncs@[j].request_id == v;
                assert(a.is_last_record_for(j, t) && a.syncs@[j].request_id == v);
                assert forall|k: int| j < k < b.syncs@.len() implies (#[trigger] b.syncs@[k]).tenant
                    != t by {
                    if k < n {
                        assert(b.syncs@[k] == a.syncs@[k]);
                    } else {
                        assert(b.syncs@[k] == rec);
                    }
                }
                assert(b.syncs@[j] == a.syncs@[j]);
                assert(b.is_last_record_for(j, t));
            }
        }
        assert(b.index_points_at_latest());
        assert forall|j: int| 0 <= j < b.syncs@.len() implies lookup_assoc(
            b.last_sync@,
            (#[trigger] b.syncs@[j]).tenant,
        ) is Some by {
            if j < n {
                assert(b.syncs@[j] == a.syncs@[j]);
                if a.syncs@[j].tenant != rec.tenant {
                    assert(lookup_assoc(b.last_sync@, a.syncs@[j].tenant) == lookup_assoc(
                        a.last_sync@,
                        a.syncs@[j].tenant,
                    ));
                }
            } else {
                assert(b.syncs@[j] == rec);
            }
        }
        assert forall|j: int|
            0 <= j < b.syncs@.len() && (#[trigger] b.syncs@[j]).status
                == SyncStatus::Pending implies lookup_assoc(b.last_sync@, b.syncs@[j].tenant)
            == Some(b.syncs@[j].request_id) by {
            if j < n {
                assert(b.syncs@[j] == a.syncs@[j]);
                assert(a.syncs@[j].tenant != rec.tenant);
                assert(lookup_assoc(b.last_sync@, a.syncs@[j].tenant) == lookup_assoc(
                    a.last_sync@,
                    a.syncs@[j].tenant,
                ));
            } else {
                assert(b.syncs@[j] == rec);
            }
        }
    }

    /// Validates an initiation and builds what it would send and record:
    /// the outbound message and the pending record. Rejections, in
    /// order: no source configured, no mirror for the destination, the
    /// subject's sync still pending, a snapshot failing the shape
    /// checks, and a request identity already present in the registry.
    pub fn prepare_sync(
        &self,
        tenant_address: H160,
        destination: StateMachine,
        now: u64,
        snapshot: &TenantReputationData,
    ) -> (r: Result<(OutboundPost, CrossChainSync), Error>)
        ensures
            !self.spec_source_configured() ==> r == Err::<(OutboundPost, CrossChainSync), Error>(
                Error::TenantPassportNotConfigured,
            ),
            self.spec_source_configured() && self.spec_mirror_of(destination) is None ==> r
                == Err::<(OutboundPost, CrossChainSync), Error>(Error::MirrorContractNotConfigured),
            self.spec_source_configured() && self.spec_mirror_of(destination) is Some
                && self.spec_sync_in_progress(tenant_address) ==> r == Err::<
                (OutboundPost, CrossChainSync),
                Error,
            >(Error::SyncAlreadyInProgress),
            self.spec_source_configured() && self.spec_mirror_of(destination) is Some
                && !self.spec_sync_in_progress(tenant_address) && !spec_valid_snapshot(
                *snapshot,
                tenant_address,
            ) ==> r == Err::<(OutboundPost, CrossChainSync), Error>(Error::InvalidReputationData),
            self.spec_source_configured() && self.spec_mirror_of(destination) is Some
                && !self.spec_sync_in_progress(tenant_address) && spec_valid_snapshot(
                *snapshot,
                tenant_address,
            ) ==> {
                let id = spec_request_id_of(tenant_address, destination, now, *snapshot);
                &&& self.spec_sync_of(id) is Some ==> r == Err::<
                    (OutboundPost, CrossChainSync),
                    Error,
                >(Error::SyncAlreadyInProgress)
                &&& self.spec_sync_of(id) is None ==> (r matches Ok(p) && {
                    &&& p.0.dest == destination
                    &&& p.0.to == self.spec_mirror_of(destination)->Some_0
                    &&& p.0.timeout == SYNC_TIMEOUT_BLOCKS
                    &&& p.0.data@ == spec_encode(*snapshot)
                    &&& p.1 == CrossChainSync {
                        request_id: id,
                        tenant: tenant_address,
                        destination,
                        status: SyncStatus::Pending,
                        initiated_at: now,
                    }
                })
            },
    {
        if self.get_tenant_passport_address().is_none() {
            return Err(Error::TenantPassportNotConfigured);
        }
        let mirror = match self.get_mirror_contract(destination) {
            Some(m) => m,
            None => {
                return Err(Error::MirrorContractNotConfigured);
            },
        };
        if self.is_sync_in_progress(tenant_address) {
            return Err(Error::SyncAlreadyInProgress);
        }
        if !valid_snapshot(snapshot, tenant_address) {
            return Err(Error::InvalidReputationData);
        }
        let payload = encode_reputation_payload(snapshot);
        let request_id = compute_request_id(tenant_address, destination, now, &payload);
        if self.get_sync(request_id).is_some() {
            return Err(Error::SyncAlreadyInProgress);
        }
        let record = CrossChainSync {
            request_id,
            tenant: tenant_address,
            destination,
            status: SyncStatus::Pending,
            initiated_at: now,
        };
        let post = OutboundPost {
            dest: destination,
            to: mirror,
            timeout: SYNC_TIMEOUT_BLOCKS,
            data: payload,
        };
        Ok((post, record))
    }

    /// Commits an initiation the channel has accepted: appends the
    /// pending record and repoints the subject's index at it. Once this
    /// point is reached the operation cannot fail.
    #[verifier::loop_isolation(false)]
    pub fn commit_sync(&mut self, record: CrossChainSync) -> (e: Event)
        requires
            old(self).wf(),
            record.status == SyncStatus::Pending,
            (old(self).spec_sync_of(record.request_id) is None),
            !old(self).spec_sync_in_progress(record.tenant),
        ensures
            final(self).wf(),
            final(self).syncs@ == old(self).syncs@.push(record),
            final(self).spec_sync_of(record.request_id) == Some(record),
            final(self).spec_last_sync_of(record.tenant) == Some(record.request_id),
            forall|t: H160|
                t != record.tenant ==> final(self).spec_last_sync_of(t) == old(
                    self,
                ).spec_last_sync_of(t),
            forall|id: H256|
                id != record.request_id ==> final(self).spec_sync_of(id) == old(self).spec_sync_of(
                    id,
                ),
            final(self).tenant_passport_address == old(self).tenant_passport_address,
            final(self).mirror_contracts@ == old(self).mirror_contracts@,
            e == (Event::ReputationSyncInitiated {
                request_id: record.request_id,
                tenant: record.tenant,
                destination: record.destination,
            }),
    {
        proof {
            lemma_lookup_sync_properties(self.syncs@, record.request_id);
            lemma_lookup_sync_push(self.syncs@, record);
        }
        self.syncs.push(record);
        let mut i: usize = 0;
        while i < self.last_sync.len()
            invariant
                i <= self.last_sync@.len(),
                self.syncs@ == old(self).syncs@.push(record),
                self.last_sync@ == old(self).last_sync@,
                self.tenant_passport_address == old(self).tenant_passport_address,
                self.mirror_contracts@ == old(self).mirror_contracts@,
                forall|k: int| 0 <= k < i ==> self.last_sync@[k].0 != record.tenant,
            decreases self.last_sync@.len() - i,
        {
            if self.last_sync[i].0 == record.tenant {
                proof {
                    lemma_lookup_assoc_update(
                        self.last_sync@,
                        i as int,
                        record.tenant,
                        record.request_id,
                    );
                }
                self.last_sync[i] = (record.tenant, record.request_id);
                proof {
                    Self::lemma_wf_after_commit(*old(self), *self, record);
                }
                return Event::ReputationSyncInitiated {
                    request_id: record.request_id,
                    tenant: record.tenant,
                    destination: record.destination,
                };
            }
            i = i + 1;
        }
        proof {
            lemma_lookup_assoc_push(self.last_sync@, record.tenant, record.request_id);
        }
        self.last_sync.push((record.tenant, record.request_id));
        proof {
            Self::lemma_wf_after_commit(*old(self), *self, record);
        }
        Event::ReputationSyncInitiated {
            request_id: record.request_id,
            tenant: record.tenant,
            destination: record.destination,
        }
    }

    /// Initiates a sync of a subject's reputation to a destination
    /// chain: validates the configuration and the at-most-one-pending
    /// rule, reads and checks a snapshot, encodes it, derives the
    /// request identity, submits the message, and — only if the channel
    /// accepted — commits the pending record and repoints the subject's
    /// index. Every rejection leaves the state exactly as it was.
    pub fn sync_reputation_to_chain<S: ReputationSource, C: OutboundChannel>(
        &mut self,
        source: &S,
        channel: &mut C,
        tenant_address: H160,
        destination: StateMachine,
        now: u64,
    ) -> (r: Result<Event, Error>)
        requires
            old(self).wf(),
        ensures
            final(self).wf(),
            (r is Err) ==> *final(self) == *old(self),
            (r == Err::<Event, Error>(Error::TenantPassportNotConfigured)) <==> !old(
                self,
            ).spec_source_configured(),
            (r == Err::<Event, Error>(Error::MirrorContractNotConfigured)) <==> (old(
                self,
            ).spec_source_configured() && old(self).spec_mirror_of(destination) is None),
            old(self).spec_source_configured() && old(self).spec_mirror_of(destination) is Some
                && old(self).spec_sync_in_progress(tenant_address) ==> r == Err::<Event, Error>(
                Error::SyncAlreadyInProgress,
            ),
            r == Err::<Event, Error>(Error::SyncAlreadyInProgress) ==> old(
                self,
            ).spec_source_configured() && old(self).spec_mirror_of(destination) is Some,
            r == Err::<Event, Error>(Error::InvalidReputationData) ==> old(
                self,
            ).spec_source_configured() && old(self).spec_mirror_of(destination) is Some && !old(
                self,
            ).spec_sync_in_progress(tenant_address),
            r == Err::<Event, Error>(Error::IsmpDispatchError) ==> old(
                self,
            ).spec_source_configured() && old(self).spec_mirror_of(destination) is Some && !old(
                self,
            ).spec_sync_in_progress(tenant_address),
            r != Err::<Event, Error>(Error::Unauthorized),
            r != Err::<Event, Error>(Error::SyncNotFound),
            r != Err::<Event, Error>(Error::EncodingError),
            r matches Ok(e) ==> exists|snap: TenantReputationData|
                #[trigger] spec_valid_snapshot(snap, tenant_address) && {
                    let id = spec_request_id_of(tenant_address, destination, now, snap);
                    &&& e == Event::ReputationSyncInitiated {
                        request_id: id,
                        tenant: tenant_address,
                        destination,
                    }
                    &&& final(self).syncs@ == old(self).syncs@.push(
                        CrossChainSync {
                            request_id: id,
                            tenant: tenant_address,
                            destination,
                            status: SyncStatus::Pending,
                            initiated_at: now,
                        },
                    )
                    &&& final(self).spec_last_sync_of(tenant_address) == Some(id)
                },
            (r is Ok) ==> forall|t: H160|
                t != tenant_address ==> final(self).spec_last_sync_of(t) == old(
                    self,
                ).spec_last_sync_of(t),
            (r is Ok) ==> final(self).tenant_passport_address == old(self).tenant_passport_address
                && final(self).mirror_contracts@ == old(self).mirror_contracts@,
    {
        let passport = match self.get_tenant_passport_address() {
            Some(a) => a,
            None => {
                return Err(Error::TenantPassportNotConfigured);
            },
        };
        if self.get_mirror_contract(destination).is_none() {
            return Err(Error::MirrorContractNotConfigured);
        }
        if self.is_sync_in_progress(tenant_address) {
            return Err(Error::SyncAlreadyInProgress);
        }
        let snapshot = match source.read_tenant_reputation(tenant_address, passport, now) {
            Some(s) => s,
            None => {
                return Err(Error::InvalidReputationData);
            },
        };
        let prepared = match self.prepare_sync(tenant_address, destination, now, &snapshot) {
            Ok(x) => x,
            Err(e) => {
                return Err(e);
            },
        };
        let (post, record) = prepared;
        if !channel.send(&post) {
            return Err(Error::IsmpDispatchError);
        }
        let event = self.commit_sync(record);
        proof {
            assert(spec_valid_snapshot(snapshot, tenant_address));
        }
        Ok(event)
    }
}

/// For any subject, at most one pending record can exist: two pending
/// records for the same subject are the same record.
pub proof fn lemma_at_most_one_pending(p: Pallet, i: int, j: int)
    requires
        p.wf(),
        0 <= i < p.syncs@.len(),
        0 <= j < p.syncs@.len(),
        p.syncs@[i].status == SyncStatus::Pending,
        p.syncs@[j].status == SyncStatus::Pending,
        p.syncs@[i].tenant == p.syncs@[j].tenant,
    ensures
        i == j,
{
    assert(lookup_assoc(p.last_sync@, p.syncs@[i].tenant) == Some(p.syncs@[i].request_id));
    assert(lookup_assoc(p.last_sync@, p.syncs@[j].tenant) == Some(p.syncs@[j].request_id));
    assert(p.syncs@[i].request_id == p.syncs@[j].request_id);
}

} // verus!

