//! The overlay session handler: the state machine that binds the rate
//! limiter, the pending-request table and the texts together.
//!
//! Per session key the state is either idle (no table entry) or awaiting a
//! photo (a live entry). The overlay command consults the rate limiter and
//! asks the caller to send a prompt; once the prompt message exists its
//! reference is recorded. A queued photo either matches the live entry (and
//! closes it), finds it expired (and closes it with a notice), or is
//! ignored. The sweeper evicts everything older than the deadline.
//!
//! The engine itself performs no I/O: it returns decisions, and the caller
//! performs the sends and downloads they name. A decision of `Ignored`
//! asks the caller to send nothing at all.

use vstd::prelude::*;
use crate::{SessionKey, MessageRef, InstantMs, EXPIRY_MS, WINDOW_MS, MAX_REQUESTS};
use crate::rate_limiter::{RateLimiter, bucket_admits, bucket_step};
use crate::pending::{PendingTable, is_expired, listed, old_created};
use crate::texts::prompt_text;
use crate::texts::prompt_text_spec;

verus! {

/// What the overlay command decided.
pub enum DegenmeOutcome {
    /// The rate limiter refused: send the rate-limit notice, touch nothing.
    RateLimited,
    /// Admitted: send `text` as the prompt, then record its reference.
    /// `replaced` tells whether a prior request was still live.
    Prompt { text: String, replaced: bool },
}

/// What a queued photo message led to.
#[derive(Clone, Copy, PartialEq, Eq, Structural, Debug)]
pub enum PhotoOutcome {
    /// No live session, wrong reply target, or wrong user: send nothing.
    Ignored,
    /// The session had outlived the deadline: it is closed; send the
    /// expiry notice.
    Expired,
    /// The photo matches the live session, which is now closed: compose
    /// and deliver, then delete `prompt`.
    Matched { prompt: MessageRef },
}

/// One photo variant's dimensions, as the platform lists them.
#[derive(Clone, Copy, PartialEq, Eq, Structural, Debug)]
pub struct PhotoDim {
    pub width: u32,
    pub height: u32,
}

/// The pixel count of one photo variant.
pub open spec fn photo_area(d: PhotoDim) -> int {
    d.width * d.height
}

/// The state machine driving overlay sessions.
pub struct Engine {
    pub rate: RateLimiter,
    pub pending: PendingTable,
}

impl Engine {
    /// Both components are internally consistent.
    pub open spec fn wf(self) -> bool {
        self.rate.wf() && self.pending.wf()
    }

    /// A fresh engine with the specified rate-limiter parameters.
    pub fn new() -> (r: Engine)
        ensures
            r.wf(),
            r.rate.spec_max_requests() == MAX_REQUESTS,
            r.rate.spec_time_window() == WINDOW_MS,
            forall|k: SessionKey| r.rate.state_of(k) is None,
            forall|k: SessionKey| r.pending.state_of(k) is None,
    {
        Engine {
            rate: RateLimiter::new(MAX_REQUESTS, WINDOW_MS),
            pending: PendingTable::new(),
        }
    }

    /// Handles the overlay command from `key` at time `now`, addressing the
    /// user as `who`. Steps `key`'s rate bucket; a refusal leaves the
    /// pending table untouched. An admission asks the caller to send the
    /// prompt, with the cancellation preamble exactly when a prior request
    /// is still live; the table itself only changes once the prompt exists
    /// and `record_prompt` is called.
    pub fn on_degenme(&mut self, key: SessionKey, who: &str, now: InstantMs) -> (r: DegenmeOutcome)
        requires
            old(self).wf(),
        ensures
            final(self).wf(),
            final(self).pending == old(self).pending,
            final(self).rate.spec_max_requests() == old(self).rate.spec_max_requests(),
            final(self).rate.spec_time_window() == old(self).rate.spec_time_window(),
            final(self).rate.state_of(key) == bucket_step(
                old(self).rate.state_of(key), now,
                old(self).rate.spec_max_requests(), old(self).rate.spec_time_window()),
            forall|k2: SessionKey| k2 != key ==> final(self).rate.state_of(k2) == old(self).rate.state_of(k2),
            match r {
                DegenmeOutcome::RateLimited => !bucket_admits(
                    old(self).rate.state_of(key), now,
                    old(self).rate.spec_max_requests(), old(self).rate.spec_time_window()),
                DegenmeOutcome::Prompt { text, replaced } => {
                    &&& bucket_admits(
                        old(self).rate.state_of(key), now,
                        old(self).rate.spec_max_requests(), old(self).rate.spec_time_window())
                    &&& replaced == old(self).pending.has_key(key)
                    &&& text@ == prompt_text_spec(who@, replaced)
                },
            },
    {
        let admitted = self.rate.check_rate_limit(key, now);
        if !admitted {
            return DegenmeOutcome::RateLimited;
        }
        let replaced = match self.pending.get(key) {
            Some(_) => true,
            None => false,
        };
        let text = prompt_text(who, replaced);
        DegenmeOutcome::Prompt { text, replaced }
    }

    /// Records the prompt message just sent for `key`, replacing any prior
    /// entry for that key and touching nothing else.
    pub fn record_prompt(&mut self, key: SessionKey, prompt: MessageRef, now: InstantMs)
        requires
            old(self).wf(),
        ensures
            final(self).wf(),
            final(self).rate == old(self).rate,
            final(self).pending.state_of(key) == Some((prompt, now)),
            forall|k2: SessionKey| k2 != key ==> final(self).pending.state_of(k2) == old(self).pending.state_of(k2),
    {
        self.pending.insert_replacing(key, prompt, now);
    }

    /// Decides what a queued photo message from `key` leads to. A photo
    /// with no live session, or whose reply target is not that session's
    /// prompt, is ignored and changes nothing — the caller sends no message
    /// for it. A matching reply closes the session before any I/O begins:
    /// it is answered with the composed photo when the session is young
    /// enough, and with the expiry notice otherwise.
    pub fn on_photo(&mut self, key: SessionKey, reply_to: Option<MessageRef>, now: InstantMs) -> (r: PhotoOutcome)
        requires
            old(self).wf(),
        ensures
            final(self).wf(),
            final(self).rate == old(self).rate,
            forall|k2: SessionKey| k2 != key ==> final(self).pending.state_of(k2) == old(self).pending.state_of(k2),
            match old(self).pending.state_of(key) {
                None => r == PhotoOutcome::Ignored && final(self).pending == old(self).pending,
                Some(pc) => {
                    if reply_to != Some(pc.0) {
                        r == PhotoOutcome::Ignored && final(self).pending == old(self).pending
                    } else if is_expired(pc.1, now, EXPIRY_MS) {
                        r == PhotoOutcome::Expired && final(self).pending.state_of(key) is None
                    } else {
                        r == (PhotoOutcome::Matched { prompt: pc.0 })
                            && final(self).pending.state_of(key) is None
                    }
                },
            },
    {
        let entry = self.pending.get(key);
        match entry {
            None => PhotoOutcome::Ignored,
            Some((prompt, created)) => {
                let matches_prompt = match reply_to {
                    Some(m) => m == prompt,
                    None => false,
                };
                if !matches_prompt {
                    PhotoOutcome::Ignored
                } else if now >= created && now - created > EXPIRY_MS {
                    self.pending.remove(key);
                    PhotoOutcome::Expired
                } else {
                    self.pending.remove(key);
                    PhotoOutcome::Matched { prompt }
                }
            },
        }
    }

    /// One pass of the expiry sweeper at time `now`: removes exactly the
    /// entries older than the deadline and returns them, so the caller can
    /// notify each user and delete each stale prompt.
    pub fn sweep(&mut self, now: InstantMs) -> (evicted: Vec<(SessionKey, MessageRef)>)
        requires
            old(self).wf(),
        ensures
            final(self).wf(),
            final(self).rate == old(self).rate,
            forall|k: SessionKey| #![trigger old(self).pending.state_of(k)] match old(self).pending.state_of(k) {
                Some(pc) => if is_expired(pc.1, now, EXPIRY_MS) {
                    final(self).pending.state_of(k) is None && listed(evicted@, k, pc.0)
                } else {
                    final(self).pending.state_of(k) == old(self).pending.state_of(k)
                },
                None => final(self).pending.state_of(k) is None,
            },
            forall|m: int| #![auto] 0 <= m < evicted@.len() ==>
                old(self).pending.state_of(evicted@[m].0)
                    == Some((evicted@[m].1, old_created(old(self).pending.entries_view(), evicted@[m].0)))
                && is_expired(old_created(old(self).pending.entries_view(), evicted@[m].0), now, EXPIRY_MS),
            forall|m1: int, m2: int| 0 <= m1 < m2 < evicted@.len() ==> evicted@[m1].0 != evicted@[m2].0,
    {
        self.pending.scan_expired(now, EXPIRY_MS)
    }
}

/// The index of the largest attached photo variant: the one with the most
/// pixels, the last such when several tie.
pub fn largest_variant(dims: &Vec<PhotoDim>) -> (r: Option<usize>)
    ensures
        (r is None) == (dims@.len() == 0),
        match r {
            Some(i) => {
                &&& i < dims@.len()
                &&& forall|j: int| 0 <= j < dims@.len() ==> photo_area(dims@[j]) <= photo_area(dims@[i as int])
                &&& forall|j: int| i < j < dims@.len() ==> photo_area(dims@[j]) < photo_area(dims@[i as int])
            },
            None => true,
        },
{
    let n = dims.len();
    if n == 0 {
        return None;
    }
    let mut best: usize = 0;
    proof {
        assert((dims@[0].width as int) * (dims@[0].height as int) <= 0xFFFF_FFFF * 0xFFFF_FFFF)
            by (nonlinear_arith)
            requires
                0 <= dims@[0].width as int <= 0xFFFF_FFFF,
                0 <= dims@[0].height as int <= 0xFFFF_FFFF;
    }
    let mut best_area: u64 = (dims[0].width as u64) * (dims[0].height as u64);
    let mut i: usize = 1;
    while i < n
        invariant
            n == dims@.len(),
            1 <= n,
            best < i,
            1 <= i <= n,
            best_area == photo_area(dims@[best as int]),
            forall|j: int| 0 <= j < i ==> photo_area(dims@[j]) <= photo_area(dims@[best as int]),
            forall|j: int| best < j < i ==> photo_area(dims@[j]) < photo_area(dims@[best as int]),
        decreases n - i,
    {
        proof {
            assert((dims@[i as int].width as int) * (dims@[i as int].height as int)
                <= 0xFFFF_FFFF * 0xFFFF_FFFF) by (nonlinear_arith)
                requires
                    0 <= dims@[i as int].width as int <= 0xFFFF_FFFF,
                    0 <= dims@[i as int].height as int <= 0xFFFF_FFFF;
        }
        let a = (dims[i].width as u64) * (dims[i].height as u64);
        if a >= best_area {
            best = i;
            best_area = a;
        }
        i = i + 1;
    }
    Some(best)
}

} // verus!
