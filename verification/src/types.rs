//! Data model: addresses, chain identifiers, reputation snapshots, sync
//! records, errors, and emitted events.

use vstd::prelude::*;

verus! {

/// A 160-bit address identifying a subject (tenant) or a contract
/// endpoint. The 20 bytes are held as the 4 high bytes and the 16 low
/// bytes, each big-endian.
#[derive(Clone, Copy, PartialEq, Eq, Structural, Debug)]
pub struct H160 {
    /// Bytes 0..4 of the address, big-endian.
    pub hi: u32,
    /// Bytes 4..20 of the address, big-endian.
    pub lo: u128,
}

/// A 256-bit request identity, content-derived from the outbound
/// message. The 32 bytes are held as two 16-byte halves, big-endian.
#[derive(Clone, Copy, PartialEq, Eq, Structural, Debug)]
pub struct H256 {
    /// Bytes 0..16 of the identity, big-endian.
    pub hi: u128,
    /// Bytes 16..32 of the identity, big-endian.
    pub lo: u128,
}

/// A destination chain identifier.
#[derive(Clone, Copy, PartialEq, Eq, Structural, Debug)]
pub enum StateMachine {
    /// An EVM chain, by chain id.
    Evm(u32),
    /// A Polkadot parachain, by para id.
    Polkadot(u32),
    /// A Kusama parachain, by para id.
    Kusama(u32),
}

/// A reputation snapshot for one subject, as read from the reputation
/// source. Immutable once produced; consumed by encoding.
#[derive(Clone, Copy, PartialEq, Eq, Structural, Debug)]
pub struct TenantReputationData {
    /// The subject the snapshot describes.
    pub tenant_address: H160,
    /// Reputation score, 0 to 100 by convention.
    pub reputation: u32,
    /// Completed payments.
    pub payments_made: u32,
    /// Total disputes.
    pub disputes_count: u32,
    /// Properties rented.
    pub properties_rented: u32,
    /// Cumulative rent paid, in the smallest currency unit.
    pub total_rent_paid: u128,
    /// Logical-clock point of the last update.
    pub last_updated: u64,
}

/// The lifecycle state of one sync request. `Pending` is the only
/// non-terminal state.
#[derive(Clone, Copy, PartialEq, Eq, Structural, Debug)]
pub enum SyncStatus {
    /// Initiated, awaiting confirmation from the destination.
    Pending,
    /// Confirmed on the destination chain. Terminal.
    Confirmed,
    /// Reported failed by the transport. Terminal.
    Failed,
}

/// One entry of the sync registry: a request identity with the subject,
/// destination, status and initiation point it belongs to.
#[derive(Clone, Copy, PartialEq, Eq, Structural, Debug)]
pub struct CrossChainSync {
    /// Content-derived identity of the request.
    pub request_id: H256,
    /// The subject whose reputation is being synchronized.
    pub tenant: H160,
    /// The destination chain.
    pub destination: StateMachine,
    /// Lifecycle state.
    pub status: SyncStatus,
    /// Logical-clock point (block number) at initiation.
    pub initiated_at: u64,
}

/// Why an operation was rejected. Every rejection leaves the state
/// exactly as it was.
#[derive(Clone, Copy, PartialEq, Eq, Structural, Debug)]
pub enum Error {
    /// A privileged operation was invoked without the root capability.
    Unauthorized,
    /// No reputation-source (tenant passport) address is configured.
    TenantPassportNotConfigured,
    /// No mirror contract is registered for the destination chain.
    MirrorContractNotConfigured,
    /// The subject's most recent sync is still pending, or the computed
    /// request identity is already present in the registry.
    SyncAlreadyInProgress,
    /// No record exists under the given request identity.
    SyncNotFound,
    /// The snapshot could not be serialized.
    EncodingError,
    /// The outbound channel rejected the message.
    IsmpDispatchError,
    /// The reputation source failed, or returned a snapshot that fails
    /// the basic shape checks.
    InvalidReputationData,
}

/// A notification emitted by an operation, returned to the caller so the
/// host can publish it.
#[derive(Clone, Debug, PartialEq, Eq)]
pub enum Event {
    /// A sync was initiated and its message accepted by the channel.
    ReputationSyncInitiated { request_id: H256, tenant: H160, destination: StateMachine },
    /// A pending sync was confirmed.
    ReputationSyncConfirmed { request_id: H256, tenant: H160 },
    /// A pending sync failed, with the transport's opaque reason.
    ReputationSyncFailed { request_id: H256, tenant: H160, reason: Vec<u8> },
    /// A mirror contract was registered for a chain.
    MirrorContractRegistered { chain: StateMachine, contract: H160 },
    /// The reputation-source address was configured.
    TenantPassportConfigured { address: H160 },
}

/// An outbound cross-chain message, handed to the channel.
#[derive(Clone, Debug, PartialEq, Eq)]
pub struct OutboundPost {
    /// Destination chain.
    pub dest: StateMachine,
    /// Recipient: the mirror contract on the destination chain.
    pub to: H160,
    /// Timeout window, in logical-clock units from initiation.
    pub timeout: u64,
    /// The encoded reputation snapshot.
    pub data: Vec<u8>,
}

/// The timeout window carried by every outbound message, in
/// logical-clock units.
pub const SYNC_TIMEOUT_BLOCKS: u64 = 1000;

impl SyncStatus {
    /// `Confirmed` and `Failed` are terminal: a record in either state
    /// never changes again.
    pub open spec fn is_terminal(self) -> bool {
        self != SyncStatus::Pending
    }
}

} // verus!
