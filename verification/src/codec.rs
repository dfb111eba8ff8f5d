//! The payload codec: a deterministic, reversible, fixed-shape
//! serialization of a reputation snapshot into the 60-byte wire payload
//! carried by an outbound message.
//!
//! Layout, all fields little-endian: subject address (4 high bytes, then
//! 16 low bytes), reputation, payments made, disputes, properties rented
//! (4 bytes each), total rent paid (16 bytes), last-updated clock value
//! (8 bytes).

use vstd::prelude::*;

use crate::bytes::{
    from_le, le_bytes, lemma_from_le_le_bytes, lemma_le_bytes_len, lemma_pow256_values, pow256,
    push_le_bytes, read_le_bytes,
};
use crate::types::{TenantReputationData, H160};

verus! {

/// The exact payload length: 20 + 4 * 4 + 16 + 8 bytes.
pub const PAYLOAD_LEN: usize = 60;

/// The bytes a snapshot serializes to.
pub open spec fn spec_encode(d: TenantReputationData) -> Seq<u8> {
    le_bytes(d.tenant_address.hi as nat, 4) + le_bytes(d.tenant_address.lo as nat, 16) + le_bytes(
        d.reputation as nat,
        4,
    ) + le_bytes(d.payments_made as nat, 4) + le_bytes(d.disputes_count as nat, 4) + le_bytes(
        d.properties_rented as nat,
        4,
    ) + le_bytes(d.total_rent_paid as nat, 16) + le_bytes(d.last_updated as nat, 8)
}

/// The snapshot a payload deserializes to; `None` exactly on malformed
/// input (any length other than `PAYLOAD_LEN`).
pub open spec fn spec_decode(s: Seq<u8>) -> Option<TenantReputationData> {
    if s.len() != PAYLOAD_LEN {
        None
    } else {
        Some(
            TenantReputationData {
                tenant_address: H160 {
                    hi: from_le(s.subrange(0, 4)) as u32,
                    lo: from_le(s.subrange(4, 20)) as u128,
                },
                reputation: from_le(s.subrange(20, 24)) as u32,
                payments_made: from_le(s.subrange(24, 28)) as u32,
                disputes_count: from_le(s.subrange(28, 32)) as u32,
                properties_rented: from_le(s.subrange(32, 36)) as u32,
                total_rent_paid: from_le(s.subrange(36, 52)) as u128,
                last_updated: from_le(s.subrange(52, 60)) as u64,
            },
        )
    }
}

pub proof fn lemma_encode_len(d: TenantReputationData)
    ensures
        spec_encode(d).len() == PAYLOAD_LEN,
{
    lemma_le_bytes_len(d.tenant_address.hi as nat, 4);
    lemma_le_bytes_len(d.tenant_address.lo as nat, 16);
    lemma_le_bytes_len(d.reputation as nat, 4);
    lemma_le_bytes_len(d.payments_made as nat, 4);
    lemma_le_bytes_len(d.disputes_count as nat, 4);
    lemma_le_bytes_len(d.properties_rented as nat, 4);
    lemma_le_bytes_len(d.total_rent_paid as nat, 16);
    lemma_le_bytes_len(d.last_updated as nat, 8);
}

/// Encoding is reversible: decoding the encoding of any snapshot yields
/// exactly that snapshot.
pub proof fn lemma_decode_encode(d: TenantReputationData)
    ensures
        spec_decode(spec_encode(d)) == Some(d),
{
    lemma_encode_len(d);
    lemma_le_bytes_len(d.tenant_address.hi as nat, 4);
    lemma_le_bytes_len(d.tenant_address.lo as nat, 16);
    lemma_le_bytes_len(d.reputation as nat, 4);
    lemma_le_bytes_len(d.payments_made as nat, 4);
    lemma_le_bytes_len(d.disputes_count as nat, 4);
    lemma_le_bytes_len(d.properties_rented as nat, 4);
    lemma_le_bytes_len(d.total_rent_paid as nat, 16);
    lemma_le_bytes_len(d.last_updated as nat, 8);
    lemma_pow256_values();
    let s = spec_encode(d);
    assert(s.subrange(0, 4) =~= le_bytes(d.tenant_address.hi as nat, 4));
    assert(s.subrange(4, 20) =~= le_bytes(d.tenant_address.lo as nat, 16));
    assert(s.subrange(20, 24) =~= le_bytes(d.reputation as nat, 4));
    assert(s.subrange(24, 28) =~= le_bytes(d.payments_made as nat, 4));
    assert(s.subrange(28, 32) =~= le_bytes(d.disputes_count as nat, 4));
    assert(s.subrange(32, 36) =~= le_bytes(d.properties_rented as nat, 4));
    assert(s.subrange(36, 52) =~= le_bytes(d.total_rent_paid as nat, 16));
    assert(s.subrange(52, 60) =~= le_bytes(d.last_updated as nat, 8));
    lemma_from_le_le_bytes(d.tenant_address.hi as nat, 4);
    lemma_from_le_le_bytes(d.tenant_address.lo as nat, 16);
    lemma_from_le_le_bytes(d.reputation as nat, 4);
    lemma_from_le_le_bytes(d.payments_made as nat, 4);
    lemma_from_le_le_bytes(d.disputes_count as nat, 4);
    lemma_from_le_le_bytes(d.properties_rented as nat, 4);
    lemma_from_le_le_bytes(d.total_rent_paid as nat, 16);
    lemma_from_le_le_bytes(d.last_updated as nat, 8);
}

/// Serializes a snapshot into its 60-byte wire payload.
pub fn encode_reputation_payload(data: &TenantReputationData) -> (r: Vec<u8>)
    ensures
        r@ == spec_encode(*data),
        r@.len() == PAYLOAD_LEN,
{
    proof {
        lemma_encode_len(*data);
    }
    let mut out: Vec<u8> = Vec::new();
    push_le_bytes(&mut out, data.tenant_address.hi as u128, 4);
    push_le_bytes(&mut out, data.tenant_address.lo, 16);
    push_le_bytes(&mut out, data.reputation as u128, 4);
    push_le_bytes(&mut out, data.payments_made as u128, 4);
    push_le_bytes(&mut out, data.disputes_count as u128, 4);
    push_le_bytes(&mut out, data.properties_rented as u128, 4);
    push_le_bytes(&mut out, data.total_rent_paid, 16);
    push_le_bytes(&mut out, data.last_updated as u128, 8);
    proof {
        assert(out@ =~= spec_encode(*data));
    }
    out
}

/// Deserializes a wire payload; returns `None` exactly on malformed
/// (wrongly sized) input.
pub fn decode_reputation_payload(payload: &Vec<u8>) -> (r: Option<TenantReputationData>)
    ensures
        r == spec_decode(payload@),
{
    if payload.len() != PAYLOAD_LEN {
        return None;
    }
    proof {
        lemma_pow256_values();
    }
    let s = payload.as_slice();
    let addr_hi = read_le_bytes(s, 0, 4);
    let addr_lo = read_le_bytes(s, 4, 16);
    let reputation = read_le_bytes(s, 20, 4);
    let payments_made = read_le_bytes(s, 24, 4);
    let disputes_count = read_le_bytes(s, 28, 4);
    let properties_rented = read_le_bytes(s, 32, 4);
    let total_rent_paid = read_le_bytes(s, 36, 16);
    let last_updated = read_le_bytes(s, 52, 8);
    Some(
        TenantReputationData {
            tenant_address: H160 { hi: addr_hi as u32, lo: addr_lo },
            reputation: reputation as u32,
            payments_made: payments_made as u32,
            disputes_count: disputes_count as u32,
            properties_rented: properties_rented as u32,
            total_rent_paid,
            last_updated: last_updated as u64,
        },
    )
}

} // verus!
