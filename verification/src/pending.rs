//! The table of live interactive sessions.
//!
//! Maps a session key to the prompt message that asked for a photo and the
//! time the request was made. At most one entry exists per key: a repeated
//! command replaces the old entry, a matched photo or the expiry sweep
//! removes it.

use vstd::prelude::*;
use crate::{SessionKey, MessageRef, InstantMs};

verus! {

/// One live interactive session.
#[derive(Clone, Copy, PartialEq, Eq, Structural, Debug)]
pub struct PendingRequest {
    /// The (chat, user) pair the session belongs to.
    pub key: SessionKey,
    /// The bot's "please reply with an image" message.
    pub prompt_message: MessageRef,
    /// When the request was accepted.
    pub created_at: InstantMs,
}

/// True when no two entries in `s` share a key.
pub open spec fn pending_keys_unique(s: Seq<PendingRequest>) -> bool {
    forall|i: int, j: int| 0 <= i < j < s.len() ==> s[i].key != s[j].key
}

/// True when some entry in `s` has key `k`.
pub open spec fn pending_has_key(s: Seq<PendingRequest>, k: SessionKey) -> bool {
    exists|i: int| 0 <= i < s.len() && s[i].key == k
}

/// The index of the entry with key `k`, meaningful only when one exists.
pub open spec fn pending_index_of(s: Seq<PendingRequest>, k: SessionKey) -> int {
    choose|i: int| 0 <= i < s.len() && s[i].key == k
}

/// The (prompt message, creation time) stored for `k`, if any.
pub open spec fn pending_state_of(s: Seq<PendingRequest>, k: SessionKey) -> Option<(MessageRef, InstantMs)> {
    if pending_has_key(s, k) {
        let i = pending_index_of(s, k);
        Some((s[i].prompt_message, s[i].created_at))
    } else {
        None
    }
}

/// Whether an entry created at `created` has outlived `expiry` at time `now`.
pub open spec fn is_expired(created: InstantMs, now: InstantMs, expiry: InstantMs) -> bool {
    now - created > expiry
}

/// True when the pair `(k, p)` occurs in the eviction list `r`.
pub open spec fn listed(r: Seq<(SessionKey, MessageRef)>, k: SessionKey, p: MessageRef) -> bool {
    exists|m: int| 0 <= m < r.len() && r[m] == (k, p)
}

/// Authoritative map of live interactive sessions.
pub struct PendingTable {
    entries: Vec<PendingRequest>,
}

impl PendingTable {
    /// All entries of the table.
    pub closed spec fn entries_view(self) -> Seq<PendingRequest> {
        self.entries@
    }

    /// The (prompt message, creation time) stored for `k`, if any.
    pub open spec fn state_of(self, k: SessionKey) -> Option<(MessageRef, InstantMs)> {
        pending_state_of(self.entries_view(), k)
    }

    /// True when a session is live for `k`.
    pub open spec fn has_key(self, k: SessionKey) -> bool {
        pending_has_key(self.entries_view(), k)
    }

    /// Internal consistency: each key owns at most one entry.
    pub open spec fn wf(self) -> bool {
        pending_keys_unique(self.entries_view())
    }

    /// A fresh, empty table.
    pub fn new() -> (r: PendingTable)
        ensures
            r.wf(),
            forall|k: SessionKey| r.state_of(k) is None,
            r.entries_view().len() == 0,
    {
        PendingTable { entries: Vec::new() }
    }

    /// Looks up the live session for `key`, if any.
    pub fn get(&self, key: SessionKey) -> (r: Option<(MessageRef, InstantMs)>)
        requires
            self.wf(),
        ensures
            r == self.state_of(key),
    {
        let n = self.entries.len();
        let mut i: usize = 0;
        while i < n
            invariant
                0 <= i <= n,
                n == self.entries@.len(),
                pending_keys_unique(self.entries@),
                forall|j: int| 0 <= j < i ==> self.entries@[j].key != key,
            decreases n - i,
        {
            if self.entries[i].key == key {
                proof {
                    lemma_pending_index_is(self.entries@, key, i as int);
                }
                return Some((self.entries[i].prompt_message, self.entries[i].created_at));
            }
            i = i + 1;
        }
        proof {
            assert(!pending_has_key(self.entries@, key));
        }
        None
    }

    /// Removes the live session for `key`, returning what was stored.
    pub fn remove(&mut self, key: SessionKey) -> (removed: Option<(MessageRef, InstantMs)>)
        requires
            old(self).wf(),
        ensures
            final(self).wf(),
            removed == old(self).state_of(key),
            final(self).state_of(key) is None,
            forall|k2: SessionKey| k2 != key ==> final(self).state_of(k2) == old(self).state_of(k2),
    {
        let n = self.entries.len();
        let mut i: usize = 0;
        while i < n
            invariant
                0 <= i <= n,
                n == self.entries@.len(),
                self.entries@ == old(self).entries@,
                pending_keys_unique(self.entries@),
                forall|j: int| 0 <= j < i ==> self.entries@[j].key != key,
            decreases n - i,
        {
            if self.entries[i].key == key {
                let e = self.entries[i];
                proof {
                    lemma_pending_index_is(self.entries@, key, i as int);
                }
                self.entries.remove(i);
                proof {
                    lemma_pending_remove_at(old(self).entries@, self.entries@, key, i as int);
                }
                return Some((e.prompt_message, e.created_at));
            }
            i = i + 1;
        }
        proof {
            assert(!pending_has_key(self.entries@, key));
        }
        None
    }

    /// Makes `key`'s live session (`prompt`, `created`), replacing any prior
    /// entry for `key` and leaving every other key untouched.
    pub fn insert_replacing(&mut self, key: SessionKey, prompt: MessageRef, created: InstantMs)
        requires
            old(self).wf(),
        ensures
            final(self).wf(),
            final(self).state_of(key) == Some((prompt, created)),
            forall|k2: SessionKey| k2 != key ==> final(self).state_of(k2) == old(self).state_of(k2),
    {
        self.remove(key);
        let ghost mid = self.entries@;
        self.entries.push(PendingRequest { key, prompt_message: prompt, created_at: created });
        proof {
            let s1 = self.entries@;
            assert(s1[mid.len() as int].key == key);
            assert(pending_keys_unique(s1)) by {
                assert forall|p: int, q: int| 0 <= p < q < s1.len() implies s1[p].key != s1[q].key by {
                    if q < mid.len() {
                        assert(s1[p] == mid[p] && s1[q] == mid[q]);
                    } else {
                        assert(s1[p] == mid[p]);
                        if mid[p].key == key {
                            assert(pending_has_key(mid, key));
                        }
                    }
                }
            }
            lemma_pending_index_is(s1, key, mid.len() as int);
            assert forall|k2: SessionKey| k2 != key implies
                pending_state_of(s1, k2) == pending_state_of(mid, k2) by {
                lemma_pending_push_fresh(mid, s1, key, k2);
            }
        }
    }

    /// Atomically removes and returns exactly those entries whose age at
    /// `now` exceeds `expiry_ms`; every younger entry stays untouched.
    pub fn scan_expired(&mut self, now: InstantMs, expiry_ms: u64) -> (evicted: Vec<(SessionKey, MessageRef)>)
        requires
            old(self).wf(),
        ensures
            final(self).wf(),
            forall|k: SessionKey| #![trigger old(self).state_of(k)] match old(self).state_of(k) {
                Some(pc) => if is_expired(pc.1, now, expiry_ms) {
                    final(self).state_of(k) is None && listed(evicted@, k, pc.0)
                } else {
                    final(self).state_of(k) == old(self).state_of(k)
                },
                None => final(self).state_of(k) is None,
            },
            forall|m: int| #![auto] 0 <= m < evicted@.len() ==>
                old(self).state_of(evicted@[m].0) == Some((evicted@[m].1, old_created(old(self).entries_view(), evicted@[m].0)))
                && is_expired(old_created(old(self).entries_view(), evicted@[m].0), now, expiry_ms),
            forall|m1: int, m2: int| 0 <= m1 < m2 < evicted@.len() ==> evicted@[m1].0 != evicted@[m2].0,
    {
        let n = self.entries.len();
        let mut kept: Vec<PendingRequest> = Vec::new();
        let mut out: Vec<(SessionKey, MessageRef)> = Vec::new();
        let ghost mut srck: Seq<int> = Seq::empty();
        let ghost mut srco: Seq<int> = Seq::empty();
        let ghost mut dst: Seq<int> = Seq::empty();
        let mut i: usize = 0;
        while i < n
            invariant
                0 <= i <= n,
                n == self.entries@.len(),
                self.entries@ == old(self).entries@,
                pending_keys_unique(self.entries@),
                srck.len() == kept@.len(),
                forall|m: int| #![trigger srck[m]] 0 <= m < srck.len() ==>
                    0 <= srck[m] < i as int
                    && kept@[m] == self.entries@[srck[m]]
                    && !is_expired(self.entries@[srck[m]].created_at, now, expiry_ms),
                forall|m1: int, m2: int| 0 <= m1 < m2 < srck.len() ==> srck[m1] < srck[m2],
                srco.len() == out@.len(),
                forall|m: int| #![trigger srco[m]] 0 <= m < srco.len() ==>
                    0 <= srco[m] < i as int
                    && out@[m] == (self.entries@[srco[m]].key, self.entries@[srco[m]].prompt_message)
                    && is_expired(self.entries@[srco[m]].created_at, now, expiry_ms),
                forall|m1: int, m2: int| 0 <= m1 < m2 < srco.len() ==> srco[m1] < srco[m2],
                dst.len() == i as int,
                forall|j: int| #![trigger dst[j]] 0 <= j < i as int ==> (
                    if is_expired(self.entries@[j].created_at, now, expiry_ms) {
                        0 <= dst[j] < out@.len()
                        && out@[dst[j]] == (self.entries@[j].key, self.entries@[j].prompt_message)
                    } else {
                        0 <= dst[j] < kept@.len()
                        && kept@[dst[j]] == self.entries@[j]
                    }
                ),
            decreases n - i,
        {
            let e = self.entries[i];
            if now >= e.created_at && now - e.created_at > expiry_ms {
                proof {
                    dst = dst.push(out@.len() as int);
                    srco = srco.push(i as int);
                }
                out.push((e.key, e.prompt_message));
            } else {
                proof {
                    dst = dst.push(kept@.len() as int);
                    srck = srck.push(i as int);
                }
                kept.push(e);
            }
            i = i + 1;
        }
        let ghost s0 = self.entries@;
        self.entries = kept;
        proof {
            let s1 = self.entries@;
            assert(pending_keys_unique(s1)) by {
                assert forall|m1: int, m2: int| 0 <= m1 < m2 < s1.len() implies
                    s1[m1].key != s1[m2].key by {
                    assert(s1[m1] == s0[srck[m1]]);
                    assert(s1[m2] == s0[srck[m2]]);
                    assert(srck[m1] < srck[m2]);
                }
            }
            assert forall|m1: int, m2: int| 0 <= m1 < m2 < out@.len() implies
                out@[m1].0 != out@[m2].0 by {
                assert(out@[m1].0 == s0[srco[m1]].key);
                assert(out@[m2].0 == s0[srco[m2]].key);
                assert(srco[m1] < srco[m2]);
            }
            assert forall|k: SessionKey| #![trigger pending_state_of(s0, k)] match pending_state_of(s0, k) {
                Some(pc) => if is_expired(pc.1, now, expiry_ms) {
                    pending_state_of(s1, k) is None && listed(out@, k, pc.0)
                } else {
                    pending_state_of(s1, k) == pending_state_of(s0, k)
                },
                None => pending_state_of(s1, k) is None,
            } by {
                if pending_has_key(s0, k) {
                    let j = pending_index_of(s0, k);
                    assert(0 <= j < s0.len() && s0[j].key == k);
                    assert(dst.len() == s0.len());
                    if is_expired(s0[j].created_at, now, expiry_ms) {
                        assert(out@[dst[j]] == (s0[j].key, s0[j].prompt_message));
                        assert(listed(out@, k, s0[j].prompt_message));
                        assert(!pending_has_key(s1, k)) by {
                            if pending_has_key(s1, k) {
                                let m = pending_index_of(s1, k);
                                assert(0 <= m < s1.len() && s1[m].key == k);
                                assert(s1[m] == s0[srck[m]]);
                                lemma_pending_index_is(s0, k, srck[m]);
                            }
                        }
                    } else {
                        assert(kept@[dst[j]] == s0[j]);
                        assert(s1[dst[j]] == s0[j]);
                        lemma_pending_index_is(s1, k, dst[j]);
                    }
                } else {
                    if pending_has_key(s1, k) {
                        let m = pending_index_of(s1, k);
                        assert(0 <= m < s1.len() && s1[m].key == k);
                        assert(s1[m] == s0[srck[m]]);
                        assert(pending_has_key(s0, k));
                    }
                }
            }
            assert forall|m: int| #![auto] 0 <= m < out@.len() implies
                pending_state_of(s0, out@[m].0) == Some((out@[m].1, old_created(s0, out@[m].0)))
                && is_expired(old_created(s0, out@[m].0), now, expiry_ms) by {
                assert(out@[m] == (s0[srco[m]].key, s0[srco[m]].prompt_message));
                lemma_pending_index_is(s0, out@[m].0, srco[m]);
            }
        }
        out
    }
}

/// The creation time stored for `k`, meaningful only when `k` is present.
pub open spec fn old_created(s: Seq<PendingRequest>, k: SessionKey) -> InstantMs {
    s[pending_index_of(s, k)].created_at
}

/// At most one pending request per session key: in a well-formed table two
/// entries bearing the same key are one and the same.
pub proof fn lemma_at_most_one_pending(t: PendingTable, i: int, j: int)
    requires
        t.wf(),
        0 <= i < t.entries_view().len(),
        0 <= j < t.entries_view().len(),
        t.entries_view()[i].key == t.entries_view()[j].key,
    ensures
        i == j,
{
    if i < j {
        assert(t.entries_view()[i].key != t.entries_view()[j].key);
    } else if j < i {
        assert(t.entries_view()[j].key != t.entries_view()[i].key);
    }
}

/// With unique keys, the entry holding key `k` at index `i` is the one that
/// `pending_index_of` picks.
proof fn lemma_pending_index_is(s: Seq<PendingRequest>, k: SessionKey, i: int)
    requires
        pending_keys_unique(s),
        0 <= i < s.len(),
        s[i].key == k,
    ensures
        pending_has_key(s, k),
        pending_index_of(s, k) == i,
{
    assert(pending_has_key(s, k));
    let j = pending_index_of(s, k);
    assert(0 <= j < s.len() && s[j].key == k);
    if i < j {
        assert(s[i].key != s[j].key);
    } else if j < i {
        assert(s[j].key != s[i].key);
    }
}

/// Removing the entry that holds key `k` leaves every other key's state
/// unchanged and removes `k` entirely.
proof fn lemma_pending_remove_at(s0: Seq<PendingRequest>, s1: Seq<PendingRequest>, k: SessionKey, i: int)
    requires
        pending_keys_unique(s0),
        0 <= i < s0.len(),
        s0[i].key == k,
        s1 == s0.remove(i),
    ensures
        pending_keys_unique(s1),
        !pending_has_key(s1, k),
        forall|k2: SessionKey| k2 != k ==> pending_state_of(s1, k2) == pending_state_of(s0, k2),
{
    assert(s1.len() == s0.len() - 1);
    assert forall|m: int| 0 <= m < s1.len() implies
        s1[m] == (if m < i { s0[m] } else { s0[m + 1] }) by {}
    assert(pending_keys_unique(s1)) by {
        assert forall|p: int, q: int| 0 <= p < q < s1.len() implies s1[p].key != s1[q].key by {
            let p0: int = if p < i { p } else { p + 1 };
            let q0: int = if q < i { q } else { q + 1 };
            assert(s1[p] == s0[p0] && s1[q] == s0[q0]);
            assert(p0 < q0);
        }
    }
    assert(!pending_has_key(s1, k)) by {
        if pending_has_key(s1, k) {
            let m = pending_index_of(s1, k);
            let m0: int = if m < i { m } else { m + 1 };
            assert(s0[m0].key == k);
            lemma_pending_index_is(s0, k, m0);
            assert(m0 == i);
        }
    }
    assert forall|k2: SessionKey| k2 != k implies
        pending_state_of(s1, k2) == pending_state_of(s0, k2) by {
        if pending_has_key(s0, k2) {
            let j = pending_index_of(s0, k2);
            assert(j != i);
            let j1: int = if j < i { j } else { j - 1 };
            assert(s1[j1] == s0[j]);
            lemma_pending_index_is(s1, k2, j1);
        } else {
            if pending_has_key(s1, k2) {
                let m = pending_index_of(s1, k2);
                let m0: int = if m < i { m } else { m + 1 };
                assert(s0[m0].key == k2);
            }
        }
    }
}

/// Pushing an entry for a fresh key leaves every other key's state unchanged.
proof fn lemma_pending_push_fresh(s0: Seq<PendingRequest>, s1: Seq<PendingRequest>, k: SessionKey, k2: SessionKey)
    requires
        pending_keys_unique(s0),
        !pending_has_key(s0, k),
        s1.len() == s0.len() + 1,
        s1 == s0.push(s1.last()),
        s1.last().key == k,
        k2 != k,
    ensures
        pending_state_of(s1, k2) == pending_state_of(s0, k2),
{
    if pending_has_key(s0, k2) {
        let j = pending_index_of(s0, k2);
        assert(s1[j] == s0[j]);
        assert(pending_keys_unique(s1)) by {
            assert forall|p: int, q: int| 0 <= p < q < s1.len() implies s1[p].key != s1[q].key by {
                if q < s0.len() {
                    assert(s1[p] == s0[p] && s1[q] == s0[q]);
                } else {
                    assert(s1[p] == s0[p]);
                    if s0[p].key == k {
                        assert(pending_has_key(s0, k));
                    }
                }
            }
        }
        lemma_pending_index_is(s1, k2, j);
    } else {
        if pending_has_key(s1, k2) {
            let m = pending_index_of(s1, k2);
            if m < s0.len() {
                assert(s0[m].key == k2);
            } else {
                assert(s1[m].key == k);
            }
        }
    }
}

} // verus!
