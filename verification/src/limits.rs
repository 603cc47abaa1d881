//! The response-buffering cap.
//!
//! Body buffering is otherwise unbounded, a resource-exhaustion risk: a
//! response must be fully buffered before any byte goes out. A configured
//! limit bounds what one response may hold; when a chunk would push the
//! buffer past it, the response either degrades to raw passthrough (no
//! more rewriting, bytes stream out as they come) or is aborted, as the
//! policy says. The streaming loop is the host's; the decision what to do
//! with each chunk is made — and verified — here.

use vstd::prelude::*;

verus! {

/// What happens when a response body outgrows the configured cap.
#[derive(Clone, Copy, Debug, PartialEq, Eq, Structural)]
pub enum OverflowPolicy {
    /// Fail the response.
    Abort,
    /// Stop rewriting and stream the bytes through unchanged.
    RawPassthrough,
}

/// The configured cap on one response's buffered body.
pub struct BufferLimit {
    /// The most bytes one response may hold buffered.
    pub max_bytes: usize,
    /// What to do with a response that outgrows it.
    pub policy: OverflowPolicy,
}

/// Where one response stands with respect to the cap.
#[derive(Clone, Copy, Debug, PartialEq, Eq, Structural)]
pub enum BufferMode {
    /// Chunks are being buffered for rewriting.
    Buffering,
    /// The cap was hit under `RawPassthrough`: bytes stream out raw.
    Passthrough,
}

/// What to do with the chunk at hand.
#[derive(Clone, Copy, Debug, PartialEq, Eq, Structural)]
pub enum BodyAction {
    /// Append the chunk to the prefix's buffer.
    Buffer,
    /// Flush everything buffered and this chunk raw, then stay raw.
    FlushRaw,
    /// Keep streaming raw bytes.
    PassRaw,
    /// Fail the response.
    Abort,
}

/// The next mode and the action owed for a chunk: buffer while the cap
/// holds; at the first overflow, abort or switch to passthrough for good.
pub open spec fn spec_body_action(
    mode: BufferMode,
    buffered_len: nat,
    chunk_len: nat,
    max_bytes: nat,
    policy: OverflowPolicy,
) -> (BufferMode, BodyAction) {
    match mode {
        BufferMode::Passthrough => (BufferMode::Passthrough, BodyAction::PassRaw),
        BufferMode::Buffering => if buffered_len + chunk_len <= max_bytes {
            (BufferMode::Buffering, BodyAction::Buffer)
        } else {
            match policy {
                OverflowPolicy::Abort => (BufferMode::Buffering, BodyAction::Abort),
                OverflowPolicy::RawPassthrough => (BufferMode::Passthrough, BodyAction::FlushRaw),
            }
        },
    }
}

/// Decide what to do with an arriving chunk under the configured cap.
pub fn next_body_action(
    mode: BufferMode,
    buffered_len: usize,
    chunk_len: usize,
    limit: &BufferLimit,
) -> (r: (BufferMode, BodyAction))
    ensures
        r == spec_body_action(
            mode,
            buffered_len as nat,
            chunk_len as nat,
            limit.max_bytes as nat,
            limit.policy,
        ),
{
    match mode {
        BufferMode::Passthrough => (BufferMode::Passthrough, BodyAction::PassRaw),
        BufferMode::Buffering => {
            if chunk_len <= limit.max_bytes && buffered_len <= limit.max_bytes - chunk_len {
                (BufferMode::Buffering, BodyAction::Buffer)
            } else {
                match limit.policy {
                    OverflowPolicy::Abort => (BufferMode::Buffering, BodyAction::Abort),
                    OverflowPolicy::RawPassthrough => (
                        BufferMode::Passthrough,
                        BodyAction::FlushRaw,
                    ),
                }
            }
        },
    }
}

} // verus!
