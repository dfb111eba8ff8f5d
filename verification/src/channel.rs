//! The outbound channel boundary: the synchronous accept/reject contract
//! of the cross-chain transport, and a recording double for exercising
//! both outcomes.

use vstd::prelude::*;

use crate::types::OutboundPost;

verus! {

/// The cross-chain transport. `send` returns true exactly when the
/// message was accepted for dispatch; actual delivery is reported later,
/// asynchronously, through the confirmation callbacks. Nothing is
/// assumed of an implementation.
pub trait OutboundChannel {
    /// Submits an outbound message; true means accepted.
    fn send(&mut self, post: &OutboundPost) -> bool;
}

/// A channel double: accepts or rejects every message as configured, and
/// keeps what it accepted.
pub struct RecordingChannel {
    /// Whether `send` accepts.
    pub accept: bool,
    /// Every message accepted so far, in order.
    pub sent: Vec<OutboundPost>,
}

impl OutboundChannel for RecordingChannel {
    fn send(&mut self, post: &OutboundPost) -> bool {
        if self.accept {
            self.sent.push(post.clone());
        }
        self.accept
    }
}

} // verus!
