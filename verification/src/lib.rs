//! Core of a chat-bot backend that pairs an interactive command with a later
//! photo reply, composites a decorative overlay onto the photo, and returns
//! the result to the chat.
//!
//! Everything here is pure logic over plain values: identifiers are plain
//! integers, monotonic time is a count of milliseconds, and rasters are byte
//! vectors with explicit geometry. The transport, the HTTP stub, and the
//! asynchronous plumbing live outside the library and hand values in and out.

pub mod compose;
pub mod config;
pub mod dispatch;
pub mod engine;
pub mod pending;
pub mod queue;
pub mod rate_limiter;
pub mod texts;

use vstd::prelude::*;

verus! {

/// Identifier of a conversation on the messaging platform.
pub type ChatRef = i64;

/// Identifier of a message sender on the messaging platform.
pub type UserRef = u64;

/// Identifier of an individual message within a chat.
pub type MessageRef = i32;

/// A monotonic time point, in milliseconds from an arbitrary origin.
pub type InstantMs = u64;

/// The pair (chat, user) that scopes a pending interactive request.
/// Two users in one chat, or one user in two chats, have independent sessions.
#[derive(Clone, Copy, PartialEq, Eq, Structural, Debug)]
pub struct SessionKey {
    pub chat: ChatRef,
    pub user: UserRef,
}

/// Deadline after which a pending request is no longer valid.
pub const EXPIRY_MS: u64 = 180_000;

/// Length of one rate-limiter window.
pub const WINDOW_MS: u64 = 60_000;

/// Requests admitted per key within one rate-limiter window.
pub const MAX_REQUESTS: u32 = 5;

/// Attempts allowed for one composition before the apology is sent.
pub const MAX_RETRIES: u32 = 3;

} // verus!
