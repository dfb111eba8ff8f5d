//! Request identities: a domain-separated, content-derived 256-bit
//! identity for each initiated sync, computed over the subject, the
//! destination, the initiating clock value and the encoded payload so
//! that unrelated syncs never share an identity merely because their
//! payloads coincide.

use vstd::prelude::*;

use crate::bytes::{le_bytes, push_le_bytes};
use crate::types::{StateMachine, H160, H256};

verus! {

/// The 256-bit blake2b digest of a byte string, as two 16-byte
/// big-endian halves.
pub uninterp spec fn blake2_digest(input: Seq<u8>) -> (u128, u128);

/// Relies on `sp_crypto_hashing::blake2_256`: a 32-byte blake2b digest,
/// a function of the input bytes alone.
#[verifier::external_body]
fn blake2_256(data: &Vec<u8>) -> (r: H256)
    ensures
        (r.hi, r.lo) == blake2_digest(data@),
{
    let d = sp_crypto_hashing::blake2_256(data.as_slice());
    let hi = u128::from_be_bytes(d[0..16].try_into().expect("16 bytes"));
    let lo = u128::from_be_bytes(d[16..32].try_into().expect("16 bytes"));
    H256 { hi, lo }
}

/// The 5-byte tagged encoding of a destination chain identifier.
pub open spec fn spec_chain_bytes(dest: StateMachine) -> Seq<u8> {
    match dest {
        StateMachine::Evm(id) => seq![0u8] + le_bytes(id as nat, 4),
        StateMachine::Polkadot(id) => seq![1u8] + le_bytes(id as nat, 4),
        StateMachine::Kusama(id) => seq![2u8] + le_bytes(id as nat, 4),
    }
}

/// The digest preimage of a sync request: subject, destination,
/// initiating clock value, then the payload.
pub open spec fn spec_sync_preimage(
    tenant: H160,
    dest: StateMachine,
    now: u64,
    payload: Seq<u8>,
) -> Seq<u8> {
    le_bytes(tenant.hi as nat, 4) + le_bytes(tenant.lo as nat, 16) + spec_chain_bytes(dest)
        + le_bytes(now as nat, 8) + payload
}

/// Builds the digest preimage of a sync request.
fn sync_preimage(tenant: H160, dest: StateMachine, now: u64, payload: &Vec<u8>) -> (r: Vec<u8>)
    requires
        payload@.len() + 33 <= usize::MAX,
    ensures
        r@ == spec_sync_preimage(tenant, dest, now, payload@),
{
    proof {
        crate::bytes::lemma_le_bytes_len(tenant.hi as nat, 4);
        crate::bytes::lemma_le_bytes_len(tenant.lo as nat, 16);
        crate::bytes::lemma_le_bytes_len(now as nat, 8);
    }
    let mut out: Vec<u8> = Vec::new();
    push_le_bytes(&mut out, tenant.hi as u128, 4);
    push_le_bytes(&mut out, tenant.lo, 16);
    match dest {
        StateMachine::Evm(id) => {
            proof {
                crate::bytes::lemma_le_bytes_len(id as nat, 4);
            }
            out.push(0u8);
            push_le_bytes(&mut out, id as u128, 4);
        },
        StateMachine::Polkadot(id) => {
            proof {
                crate::bytes::lemma_le_bytes_len(id as nat, 4);
            }
            out.push(1u8);
            push_le_bytes(&mut out, id as u128, 4);
        },
        StateMachine::Kusama(id) => {
            proof {
                crate::bytes::lemma_le_bytes_len(id as nat, 4);
            }
            out.push(2u8);
            push_le_bytes(&mut out, id as u128, 4);
        },
    }
    proof {
        assert(out@ =~= le_bytes(tenant.hi as nat, 4) + le_bytes(tenant.lo as nat, 16)
            + spec_chain_bytes(dest));
    }
    push_le_bytes(&mut out, now as u128, 8);
    proof {
        assert(out@ =~= le_bytes(tenant.hi as nat, 4) + le_bytes(tenant.lo as nat, 16)
            + spec_chain_bytes(dest) + le_bytes(now as nat, 8) + payload@.subrange(0, 0));
    }
    let mut i: usize = 0;
    while i < payload.len()
        invariant
            i <= payload@.len(),
            out@ == le_bytes(tenant.hi as nat, 4) + le_bytes(tenant.lo as nat, 16)
                + spec_chain_bytes(dest) + le_bytes(now as nat, 8) + payload@.subrange(0, i as int),
            payload@.len() + 33 <= usize::MAX,
        decreases payload@.len() - i,
    {
        out.push(payload[i]);
        proof {
            assert(payload@.subrange(0, i + 1) =~= payload@.subrange(0, i as int).push(
                payload@[i as int],
            ));
            assert(out@ =~= le_bytes(tenant.hi as nat, 4) + le_bytes(tenant.lo as nat, 16)
                + spec_chain_bytes(dest) + le_bytes(now as nat, 8) + payload@.subrange(
                0,
                i + 1,
            ));
        }
        i = i + 1;
    }
    proof {
        assert(payload@.subrange(0, payload@.len() as int) =~= payload@);
    }
    out
}

/// The request identity a sync initiation derives: the digest of the
/// domain-separated preimage over the subject, destination, initiating
/// clock value and encoded snapshot.
pub open spec fn spec_request_id_of(
    tenant: H160,
    dest: StateMachine,
    now: u64,
    snapshot: crate::types::TenantReputationData,
) -> H256 {
    let d = blake2_digest(
        spec_sync_preimage(tenant, dest, now, crate::codec::spec_encode(snapshot)),
    );
    H256 { hi: d.0, lo: d.1 }
}

/// Derives the request identity of a sync: the blake2b-256 digest of the
/// domain-separated preimage.
pub fn compute_request_id(tenant: H160, dest: StateMachine, now: u64, payload: &Vec<u8>) -> (r:
    H256)
    requires
        payload@.len() + 33 <= usize::MAX,
    ensures
        (r.hi, r.lo) == blake2_digest(spec_sync_preimage(tenant, dest, now, payload@)),
{
    let preimage = sync_preimage(tenant, dest, now, payload);
    blake2_256(&preimage)
}

} // verus!
