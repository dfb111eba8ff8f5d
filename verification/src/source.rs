//! The reputation source boundary: the narrow read contract the
//! orchestrator depends on, and a deterministic test double that derives
//! a reproducible snapshot from the subject address.

use vstd::prelude::*;

use crate::types::{TenantReputationData, H160};

verus! {

/// A source of reputation snapshots. An implementation may be the
/// deterministic double below or a live adapter supplied by the host;
/// nothing is assumed of an implementation, and the orchestrator
/// validates whatever comes back.
pub trait ReputationSource {
    /// Reads the subject's snapshot from the source contract at
    /// `passport_address`, observed at clock point `now`; `None` when
    /// the source fails.
    fn read_tenant_reputation(&self, tenant: H160, passport_address: H160, now: u64) -> Option<
        TenantReputationData,
    >;
}

/// The seed the deterministic double derives from a subject: the last
/// four address bytes, big-endian.
pub open spec fn spec_mock_seed(tenant: H160) -> u32 {
    (tenant.lo % 0x1_0000_0000) as u32
}

/// The snapshot the deterministic double produces for a subject at a
/// clock point.
pub open spec fn spec_mock_snapshot(tenant: H160, now: u64) -> TenantReputationData {
    TenantReputationData {
        tenant_address: tenant,
        reputation: (50 + spec_mock_seed(tenant) % 50) as u32,
        payments_made: (1 + spec_mock_seed(tenant) % 50) as u32,
        disputes_count: (spec_mock_seed(tenant) % 3) as u32,
        properties_rented: (1 + spec_mock_seed(tenant) % 5) as u32,
        total_rent_paid: (spec_mock_seed(tenant) * 1_000_000_000_000_000_000) as u128,
        last_updated: now,
    }
}

/// Produces the deterministic double's snapshot: pseudo-random but
/// reproducible fields seeded by the subject address, with the
/// reputation score always within its conventional bound.
pub fn mock_reputation_data(tenant: H160, now: u64) -> (r: TenantReputationData)
    ensures
        r == spec_mock_snapshot(tenant, now),
        r.tenant_address == tenant,
        r.reputation <= 100,
        r.last_updated == now,
{
    let seed: u32 = (tenant.lo % 0x1_0000_0000) as u32;
    TenantReputationData {
        tenant_address: tenant,
        reputation: 50 + seed % 50,
        payments_made: 1 + seed % 50,
        disputes_count: seed % 3,
        properties_rented: 1 + seed % 5,
        total_rent_paid: (seed as u128) * 1_000_000_000_000_000_000,
        last_updated: now,
    }
}

/// The deterministic reputation-source double: it never fails and
/// ignores the source contract address.
pub struct MockReputationSource {}

impl ReputationSource for MockReputationSource {
    fn read_tenant_reputation(&self, tenant: H160, _passport_address: H160, now: u64) -> Option<
        TenantReputationData,
    > {
        Some(mock_reputation_data(tenant, now))
    }
}

} // verus!
