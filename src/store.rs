//! An in-process store of login states with the semantics asked of the
//! key-value cache: set with a time to live, get, and delete, keyed by
//! session identifier. It serves single-process deployments and tests; the
//! service keeps its states in Redis.

use vstd::prelude::*;
use crate::state::AuthState;
use crate::callback::{CallbackError, CallbackEvent, CallbackStage, next_stage};

verus! {

/// A stored state and the Unix second at which its entry lapses.
pub struct StoredEntry {
    pub state: AuthState,
    pub deadline: u64,
}

/// Login states by session identifier, each with a deadline.
pub struct MemoryStateStore {
    entries: Vec<StoredEntry>,
}

/// `now + ttl`, held at the largest timestamp.
pub open spec fn deadline_of(now: u64, ttl: u64) -> u64 {
    if now + ttl > u64::MAX {
        u64::MAX
    } else {
        (now + ttl) as u64
    }
}

impl MemoryStateStore {
    /// The entries, oldest first.
    pub closed spec fn entries(&self) -> Seq<StoredEntry> {
        self.entries@
    }

    /// No two entries share a session identifier.
    pub open spec fn wf(&self) -> bool {
        forall|i: int, j: int|
            0 <= i < self.entries().len() && 0 <= j < self.entries().len() && i != j
                ==> (#[trigger] self.entries()[i]).state.user_session_id@ != (
            #[trigger] self.entries()[j]).state.user_session_id@
    }

    /// The entry is there for the session identifier `key`.
    pub open spec fn holds(&self, key: Seq<char>) -> bool {
        exists|i: int|
            0 <= i < self.entries().len() && (#[trigger] self.entries()[i]).state.user_session_id@
                == key
    }

    /// The entry for `key`, where there is one.
    pub open spec fn entry(&self, key: Seq<char>) -> StoredEntry
        recommends
            self.holds(key),
    {
        let i = choose|i: int|
            0 <= i < self.entries().len() && (#[trigger] self.entries()[i]).state.user_session_id@
                == key;
        self.entries()[i]
    }

    /// What a read of `key` at `now` finds: the state while its entry has
    /// not lapsed.
    pub open spec fn lookup(&self, key: Seq<char>, now: u64) -> Option<AuthState> {
        if self.holds(key) && now < self.entry(key).deadline {
            Some(self.entry(key).state)
        } else {
            None
        }
    }

    pub fn new() -> (r: Self)
        ensures
            r.wf(),
            forall|key: Seq<char>, now: u64| #[trigger] r.lookup(key, now) is None,
    {
        Self { entries: Vec::new() }
    }

    /// The position of the entry for `key`.
    fn position(&self, key: &String) -> (r: Option<usize>)
        requires
            self.wf(),
        ensures
            r matches Some(i) ==> i < self.entries().len() && self.entries()[i as int].state.user_session_id@
                == key@ && self.entry(key@) == self.entries()[i as int],
            r is None ==> !self.holds(key@),
    {
        let mut i: usize = 0;
        while i < self.entries.len()
            invariant
                i <= self.entries@.len(),
                self.wf(),
                forall|j: int| 0 <= j < i ==> (#[trigger] self.entries@[j]).state.user_session_id@ != key@,
            decreases self.entries@.len() - i,
        {
            if self.entries[i].state.user_session_id.eq(key) {
                proof {
                    assert(self.entries()[i as int].state.user_session_id@ == key@);
                    let k = choose|k: int|
                        0 <= k < self.entries().len() && (#[trigger] self.entries()[k]).state.user_session_id@
                            == key@;
                    assert(k == i as int);
                }
                return Some(i);
            }
            i = i + 1;
        }
        None
    }

    /// Sets the state under its session identifier for `ttl` seconds from
    /// `now`, in place of any earlier entry for it; other keys are untouched.
    pub fn store(&mut self, state: AuthState, ttl: u64, now: u64)
        requires
            old(self).wf(),
        ensures
            final(self).wf(),
            final(self).holds(state.user_session_id@),
            final(self).entry(state.user_session_id@) == (StoredEntry {
                state,
                deadline: deadline_of(now, ttl),
            }),
            forall|key: Seq<char>, t: u64|
                key != state.user_session_id@ ==> #[trigger] final(self).lookup(key, t) == old(self).lookup(key, t),
            forall|key: Seq<char>|
                key != state.user_session_id@ ==> #[trigger] final(self).holds(key) == old(self).holds(key),
    {
        self.invalidate(state.user_session_id.as_str());
        let deadline = if ttl > u64::MAX - now {
            u64::MAX
        } else {
            now + ttl
        };
        let ghost key = state.user_session_id@;
        let ghost mid = *self;
        let ghost e = StoredEntry { state, deadline };
        self.entries.push(StoredEntry { state, deadline });
        proof {
            let n = mid.entries().len() as int;
            assert(self.entries() == mid.entries().push(e));
            assert forall|a: int, b: int|
                0 <= a < self.entries().len() && 0 <= b < self.entries().len() && a != b
                    implies (#[trigger] self.entries()[a]).state.user_session_id@ != (
                #[trigger] self.entries()[b]).state.user_session_id@ by {
                if a == n {
                    assert(self.entries()[b] == mid.entries()[b]);
                    assert(!(mid.entries()[b].state.user_session_id@ == key));
                } else if b == n {
                    assert(self.entries()[a] == mid.entries()[a]);
                    assert(!(mid.entries()[a].state.user_session_id@ == key));
                } else {
                    assert(self.entries()[a] == mid.entries()[a]);
                    assert(self.entries()[b] == mid.entries()[b]);
                }
            }
            assert(self.entries()[n].state.user_session_id@ == key);
            assert forall|key2: Seq<char>, t: u64| key2 != key implies #[trigger] self.lookup(key2, t)
                == old(self).lookup(key2, t) by {
                lemma_push_other(mid, *self, e, key2);
                assert(mid.lookup(key2, t) == old(self).lookup(key2, t));
            }
            assert forall|key2: Seq<char>| key2 != key implies #[trigger] self.holds(key2) == old(self).holds(
                key2,
            ) by {
                lemma_push_other(mid, *self, e, key2);
            }
        }
    }

    /// Reads the state under `key` at `now`. A key that is not held is never
    /// found: once invalidated, a session identifier stays unfound until a
    /// state under that same identifier is stored again.
    pub fn retrieve(&self, key: &str, now: u64) -> (r: Option<&AuthState>)
        requires
            self.wf(),
        ensures
            match self.lookup(key@, now) {
                Some(s) => r matches Some(found) && *found == s,
                None => r is None,
            },
    {
        let key = key.to_owned();
        match self.position(&key) {
            Some(i) => {
                if now < self.entries[i].deadline {
                    Some(&self.entries[i].state)
                } else {
                    None
                }
            },
            None => None,
        }
    }

    /// Deletes the entry under `key`; deleting an absent key does nothing.
    /// Afterwards no read finds `key`, and other keys are untouched.
    pub fn invalidate(&mut self, key: &str)
        requires
            old(self).wf(),
        ensures
            final(self).wf(),
            !final(self).holds(key@),
            forall|t: u64| #[trigger] final(self).lookup(key@, t) is None,
            forall|k: Seq<char>, t: u64|
                k != key@ ==> #[trigger] final(self).lookup(k, t) == old(self).lookup(k, t),
            forall|k: Seq<char>| k != key@ ==> (#[trigger] final(self).holds(k) == old(self).holds(k)),
            forall|k: Seq<char>| k != key@ && old(self).holds(k) ==> #[trigger] final(self).entry(k) == old(self).entry(k),
            final(self).entries().len() <= old(self).entries().len(),
    {
        let key = key.to_owned();
        match self.position(&key) {
            Some(i) => {
                let ghost before = *self;
                self.entries.remove(i);
                proof {
                    assert(self.entries() == before.entries().remove(i as int));
                    assert forall|k: Seq<char>| k != key@ implies (#[trigger] self.holds(k) == old(self).holds(
                        k,
                    )) && (old(self).holds(k) ==> self.entry(k) == old(self).entry(k)) by {
                        lemma_remove_other(before, *self, i as int, k);
                    }
                    assert forall|k: Seq<char>| k != key@ && old(self).holds(k) implies #[trigger] self.entry(k)
                        == old(self).entry(k) by {
                        lemma_remove_other(before, *self, i as int, k);
                    }
                    assert forall|a: int, b: int|
                        0 <= a < self.entries().len() && 0 <= b < self.entries().len() && a != b
                            implies (#[trigger] self.entries()[a]).state.user_session_id@ != (
                        #[trigger] self.entries()[b]).state.user_session_id@ by {
                        let a2 = if a < i { a } else { a + 1 };
                        let b2 = if b < i { b } else { b + 1 };
                        assert(before.entries()[a2] == self.entries()[a]);
                        assert(before.entries()[b2] == self.entries()[b]);
                    }
                    if self.holds(key@) {
                        let m = choose|m: int|
                            0 <= m < self.entries().len() && (#[trigger] self.entries()[m]).state.user_session_id@
                                == key@;
                        let m2 = if m < i { m } else { m + 1 };
                        assert(before.entries()[m2] == self.entries()[m]);
                    }
                }
            },
            None => {},
        }
    }
}

/// Adding an entry for one key changes nothing for the other keys.
proof fn lemma_push_other(
    mid: MemoryStateStore,
    fin: MemoryStateStore,
    e: StoredEntry,
    k: Seq<char>,
)
    requires
        fin.entries() == mid.entries().push(e),
        mid.wf(),
        fin.wf(),
        e.state.user_session_id@ != k,
    ensures
        fin.holds(k) == mid.holds(k),
        mid.holds(k) ==> fin.entry(k) == mid.entry(k),
{
    let n = mid.entries().len() as int;
    if mid.holds(k) {
        let j = choose|j: int|
            0 <= j < mid.entries().len() && (#[trigger] mid.entries()[j]).state.user_session_id@ == k;
        assert(fin.entries()[j] == mid.entries()[j]);
        let m = choose|m: int|
            0 <= m < fin.entries().len() && (#[trigger] fin.entries()[m]).state.user_session_id@ == k;
        assert(m != n);
        assert(fin.entries()[m] == mid.entries()[m]);
    }
    if fin.holds(k) {
        let m = choose|m: int|
            0 <= m < fin.entries().len() && (#[trigger] fin.entries()[m]).state.user_session_id@ == k;
        assert(m != n);
        assert(fin.entries()[m] == mid.entries()[m]);
    }
}

/// Removing the entry of one key changes nothing for the other keys.
proof fn lemma_remove_other(before: MemoryStateStore, fin: MemoryStateStore, i: int, k: Seq<char>)
    requires
        0 <= i < before.entries().len(),
        fin.entries() == before.entries().remove(i),
        before.wf(),
        before.entries()[i].state.user_session_id@ != k,
    ensures
        fin.holds(k) == before.holds(k),
        before.holds(k) ==> fin.entry(k) == before.entry(k),
{
    if before.holds(k) {
        let j = choose|j: int|
            0 <= j < before.entries().len() && (#[trigger] before.entries()[j]).state.user_session_id@ == k;
        assert(j != i);
        let j2 = if j < i { j } else { j - 1 };
        assert(fin.entries()[j2] == before.entries()[j]);
        let m = choose|m: int|
            0 <= m < fin.entries().len() && (#[trigger] fin.entries()[m]).state.user_session_id@ == k;
        let m2 = if m < i { m } else { m + 1 };
        assert(before.entries()[m2] == fin.entries()[m]);
    }
    if fin.holds(k) {
        let m = choose|m: int|
            0 <= m < fin.entries().len() && (#[trigger] fin.entries()[m]).state.user_session_id@ == k;
        let m2 = if m < i { m } else { m + 1 };
        assert(before.entries()[m2] == fin.entries()[m]);
    }
}

/// Of two callbacks with the same signed state, one whose cache read comes
/// after the other has invalidated the login state finds nothing and ends with
/// `AuthStateNotFound`: it never sees a retrieved, still-valid state.
pub proof fn lemma_read_after_invalidation_not_found(
    store: MemoryStateStore,
    session_id: String,
    now: u64,
)
    requires
        !store.holds(session_id@),
    ensures
        next_stage(
            CallbackStage::StateVerified { session_id },
            CallbackEvent::Retrieved { result: Ok(store.lookup(session_id@, now)), now },
        ) == (CallbackStage::Terminal { result: Err(CallbackError::AuthStateNotFound) }),
{
}

/// A state stored at `now` with time to live `ttl` is found, unchanged, by
/// every read of its session identifier before `now + ttl` (unless it is
/// invalidated or stored again in between).
pub proof fn lemma_stored_state_found(store: MemoryStateStore, state: AuthState, ttl: u64, now: u64, t: u64)
    requires
        store.holds(state.user_session_id@),
        store.entry(state.user_session_id@) == (StoredEntry { state, deadline: deadline_of(now, ttl) }),
        now + ttl <= u64::MAX,
        t < now + ttl,
    ensures
        store.lookup(state.user_session_id@, t) == Some(state),
{
}

} // verus!
