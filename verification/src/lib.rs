//! Cross-chain reputation synchronization: a verified registry and
//! orchestrator for publishing tenant reputation snapshots to remote
//! chains through an abstract outbound channel.
//!
//! The workflow has exactly one shape per subject: initiate, pending,
//! terminal. Initiation validates configuration, reads a snapshot from a
//! reputation source, encodes it, derives a content-based request
//! identity, submits the message to an outbound channel and, only if the
//! channel accepts, commits a pending record. Confirmation or failure
//! arrives later through callbacks that transition the record exactly
//! once and are idempotent thereafter.

pub mod bytes;
pub mod channel;
pub mod codec;
pub mod hashing;
pub mod pallet;
pub mod registry;
pub mod source;
pub mod types;

pub use channel::{OutboundChannel, RecordingChannel};
pub use codec::{decode_reputation_payload, encode_reputation_payload, PAYLOAD_LEN};
pub use pallet::{lemma_at_most_one_pending, valid_snapshot, Pallet};
pub use source::{mock_reputation_data, MockReputationSource, ReputationSource};
pub use types::{
    CrossChainSync, Error, Event, OutboundPost, StateMachine, SyncStatus, TenantReputationData,
    H160, H256, SYNC_TIMEOUT_BLOCKS,
};
