//! The watchdog engine: a registry of one live timer handle per key.
//!
//! Each registered ping hands out a fresh epoch, a token naming the timer
//! handle created for it. Epochs come from one counter that never repeats a
//! value, so a handle superseded by a later ping can never be mistaken for
//! the current one. The expiry handler re-validates the epoch before it
//! fires: an expiry carrying a stale epoch is a harmless no-op, which is what
//! makes replacement race-free against an in-flight firing.
//!
//! A key whose current handle fires is removed from the registry; the next
//! ping for it starts a fresh handle. The registry is meant to be owned and
//! mutated by one serial processing loop.

use vstd::prelude::*;

verus! {

/// Do all entries of the registry carry distinct keys?
spec fn keys_distinct(s: Seq<(String, u64)>) -> bool {
    forall|i: int, j: int|
        0 <= i < j < s.len() ==> s[i].0@ != s[j].0@
}

/// Is some entry keyed by `k`?
spec fn seq_has_key(s: Seq<(String, u64)>, k: Seq<char>) -> bool {
    exists|i: int| 0 <= i < s.len() && s[i].0@ == k
}

/// The index of the entry keyed by `k` (unique when keys are distinct).
spec fn seq_index_of(s: Seq<(String, u64)>, k: Seq<char>) -> int {
    choose|i: int| 0 <= i < s.len() && s[i].0@ == k
}

/// The epoch stored for key `k`.
spec fn seq_epoch_of(s: Seq<(String, u64)>, k: Seq<char>) -> u64 {
    s[seq_index_of(s, k)].1
}

/// The entry at a valid index is found by key lookup, at that very index.
proof fn lemma_found(s: Seq<(String, u64)>, i: int)
    requires
        keys_distinct(s),
        0 <= i < s.len(),
    ensures
        seq_has_key(s, s[i].0@),
        seq_index_of(s, s[i].0@) == i,
        seq_epoch_of(s, s[i].0@) == s[i].1,
{
    let k = s[i].0@;
    assert(seq_has_key(s, k));
    let j = seq_index_of(s, k);
    assert(0 <= j < s.len() && s[j].0@ == k);
    if j < i {
        assert(s[j].0@ != s[i].0@);
    } else if i < j {
        assert(s[i].0@ != s[j].0@);
    }
}

/// Removing the entry at index `i` takes its key out of the registry and
/// leaves every other key, and its epoch, as it was.
proof fn lemma_remove(s: Seq<(String, u64)>, i: int)
    requires
        keys_distinct(s),
        0 <= i < s.len(),
    ensures
        keys_distinct(s.remove(i)),
        !seq_has_key(s.remove(i), s[i].0@),
        forall|k: Seq<char>|
            k != s[i].0@ ==> seq_has_key(s.remove(i), k) == seq_has_key(s, k),
        forall|k: Seq<char>|
            k != s[i].0@ && seq_has_key(s, k) ==> seq_epoch_of(s.remove(i), k) == seq_epoch_of(
                s,
                k,
            ),
{
    let r = s.remove(i);
    assert forall|a: int| 0 <= a < r.len() implies r[a] == s[if a < i {
        a
    } else {
        a + 1
    }] by {}
    assert forall|a: int, b: int| 0 <= a < b < r.len() implies r[a].0@ != r[b].0@ by {
        let a0 = if a < i { a } else { a + 1 };
        let b0 = if b < i { b } else { b + 1 };
        assert(s[a0].0@ != s[b0].0@);
    }
    assert forall|a: int| 0 <= a < r.len() implies r[a].0@ != s[i].0@ by {
        let a0 = if a < i { a } else { a + 1 };
        if a0 < i {
            assert(s[a0].0@ != s[i].0@);
        } else {
            assert(s[i].0@ != s[a0].0@);
        }
    }
    assert forall|k: Seq<char>| k != s[i].0@ implies seq_has_key(r, k) == seq_has_key(s, k) by {
        if seq_has_key(s, k) {
            let j = seq_index_of(s, k);
            assert(0 <= j < s.len() && s[j].0@ == k);
            let jr = if j < i { j } else { j - 1 };
            assert(r[jr].0@ == k);
            assert(seq_has_key(r, k));
        }
        if seq_has_key(r, k) {
            let j = seq_index_of(r, k);
            assert(0 <= j < r.len() && r[j].0@ == k);
            let j0 = if j < i { j } else { j + 1 };
            assert(s[j0].0@ == k);
            assert(seq_has_key(s, k));
        }
    }
    assert forall|k: Seq<char>| k != s[i].0@ && seq_has_key(s, k) implies seq_epoch_of(r, k)
        == seq_epoch_of(s, k) by {
        let j = seq_index_of(s, k);
        assert(0 <= j < s.len() && s[j].0@ == k);
        lemma_found(s, j);
        let jr = if j < i { j } else { j - 1 };
        assert(r[jr].0@ == k && r[jr].1 == s[j].1);
        lemma_found(r, jr);
    }
}

/// Appending an entry with a key not yet present keeps keys distinct, maps
/// that key to the new epoch, and leaves every other key as it was.
proof fn lemma_push(s: Seq<(String, u64)>, entry: (String, u64))
    requires
        keys_distinct(s),
        !seq_has_key(s, entry.0@),
    ensures
        keys_distinct(s.push(entry)),
        seq_has_key(s.push(entry), entry.0@),
        seq_epoch_of(s.push(entry), entry.0@) == entry.1,
        forall|k: Seq<char>|
            k != entry.0@ ==> seq_has_key(s.push(entry), k) == seq_has_key(s, k),
        forall|k: Seq<char>|
            k != entry.0@ && seq_has_key(s, k) ==> seq_epoch_of(s.push(entry), k) == seq_epoch_of(
                s,
                k,
            ),
{
    let p = s.push(entry);
    assert forall|a: int, b: int| 0 <= a < b < p.len() implies p[a].0@ != p[b].0@ by {
        if b == s.len() {
            assert(p[a] == s[a]);
            if p[a].0@ == entry.0@ {
                assert(seq_has_key(s, entry.0@));
            }
        } else {
            assert(p[a] == s[a] && p[b] == s[b]);
        }
    }
    lemma_found(p, s.len() as int);
    assert forall|k: Seq<char>| k != entry.0@ implies seq_has_key(p, k) == seq_has_key(s, k) by {
        if seq_has_key(s, k) {
            let j = seq_index_of(s, k);
            assert(p[j].0@ == k);
            assert(seq_has_key(p, k));
        }
        if seq_has_key(p, k) {
            let j = seq_index_of(p, k);
            assert(0 <= j < p.len() && p[j].0@ == k);
            assert(j < s.len());
            assert(s[j].0@ == k);
            assert(seq_has_key(s, k));
        }
    }
    assert forall|k: Seq<char>| k != entry.0@ && seq_has_key(s, k) implies seq_epoch_of(p, k)
        == seq_epoch_of(s, k) by {
        let j = seq_index_of(s, k);
        assert(0 <= j < s.len() && s[j].0@ == k);
        lemma_found(s, j);
        assert(p[j].0@ == k && p[j].1 == s[j].1);
        lemma_found(p, j);
    }
}

/// The watchdog engine: the timer registry, the epoch counter it hands fresh
/// epochs from, and the process-wide grace period.
pub struct Engine {
    grace: u64,
    next_epoch: u64,
    entries: Vec<(String, u64)>,
}

impl Engine {
    /// The grace period the engine was created with.
    pub closed spec fn grace_period(self) -> u64 {
        self.grace
    }

    /// The next epoch the engine will hand out; every epoch handed out so far
    /// is below it.
    pub closed spec fn epoch_bound(self) -> u64 {
        self.next_epoch
    }

    /// Does the registry hold a live timer handle for key `k`?
    pub closed spec fn contains_key(self, k: Seq<char>) -> bool {
        seq_has_key(self.entries@, k)
    }

    /// The epoch of the live timer handle for key `k`.
    pub closed spec fn epoch_of(self, k: Seq<char>) -> u64 {
        seq_epoch_of(self.entries@, k)
    }

    /// The registry's invariant: one live timer handle per key.
    pub closed spec fn inv(self) -> bool {
        keys_distinct(self.entries@)
    }

    /// A fresh engine: empty registry, no epoch handed out yet.
    pub fn new(grace: u64) -> (e: Engine)
        ensures
            e.inv(),
            e.grace_period() == grace,
            e.epoch_bound() == 0,
            forall|k: Seq<char>| !e.contains_key(k),
    {
        Engine { grace, next_epoch: 0, entries: Vec::new() }
    }

    /// The grace period, for the loop that schedules expiries.
    pub fn grace(&self) -> (g: u64)
        ensures
            g == self.grace_period(),
    {
        self.grace
    }

    /// When a ping received at `now` will expire if it is not renewed.
    pub fn deadline_after(&self, now: u64) -> (d: u64)
        requires
            now + self.grace_period() <= u64::MAX,
        ensures
            d == now + self.grace_period(),
    {
        now + self.grace
    }

    /// Whether the engine can still hand out a fresh epoch.
    pub fn can_register(&self) -> (b: bool)
        ensures
            b == (self.epoch_bound() < u64::MAX),
    {
        self.next_epoch < u64::MAX
    }

    /// The index of the registry entry for `key`, if there is one.
    fn find(&self, key: &String) -> (r: Option<usize>)
        requires
            self.inv(),
        ensures
            match r {
                Some(i) => {
                    &&& i < self.entries@.len()
                    &&& self.entries@[i as int].0@ == key@
                    &&& self.contains_key(key@)
                    &&& self.epoch_of(key@) == self.entries@[i as int].1
                },
                None => !self.contains_key(key@),
            },
    {
        let mut i: usize = 0;
        while i < self.entries.len()
            invariant
                self.inv(),
                i <= self.entries@.len(),
                forall|j: int| 0 <= j < i ==> self.entries@[j].0@ != key@,
            decreases self.entries@.len() - i,
        {
            if self.entries[i].0 == *key {
                proof {
                    lemma_found(self.entries@, i as int);
                }
                return Some(i);
            }
            i = i + 1;
        }
        None
    }

    /// Records a heartbeat for `key`: the key's prior timer handle, if any,
    /// is superseded, and a new handle with a fresh epoch takes its place.
    /// The fresh epoch is returned so the timing subsystem can attach it to
    /// the expiry it schedules.
    pub fn register_ping(&mut self, key: String) -> (epoch: u64)
        requires
            old(self).inv(),
            old(self).epoch_bound() < u64::MAX,
        ensures
            final(self).inv(),
            epoch == old(self).epoch_bound(),
            final(self).epoch_bound() == old(self).epoch_bound() + 1,
            final(self).grace_period() == old(self).grace_period(),
            final(self).contains_key(key@),
            final(self).epoch_of(key@) == epoch,
            forall|k: Seq<char>|
                k != key@ ==> final(self).contains_key(k) == old(self).contains_key(k),
            forall|k: Seq<char>|
                k != key@ && old(self).contains_key(k) ==> final(self).epoch_of(k) == old(
                    self,
                ).epoch_of(k),
    {
        match self.find(&key) {
            Some(i) => {
                proof {
                    lemma_remove(self.entries@, i as int);
                }
                self.entries.remove(i);
            },
            None => {},
        }
        let epoch = self.next_epoch;
        self.next_epoch = self.next_epoch + 1;
        proof {
            lemma_push(self.entries@, (key, epoch));
        }
        self.entries.push((key, epoch));
        epoch
    }

    /// The expiry handler: called when the timer handle carrying `epoch`
    /// fires for `key`. It fires — reports a missed deadline and removes the
    /// key from the registry — exactly when that epoch still names the key's
    /// current handle; an expiry for a superseded or already-fired handle
    /// leaves the engine untouched.
    pub fn handle_expiry(&mut self, key: &String, epoch: u64) -> (fired: bool)
        requires
            old(self).inv(),
        ensures
            final(self).inv(),
            final(self).grace_period() == old(self).grace_period(),
            final(self).epoch_bound() == old(self).epoch_bound(),
            fired == (old(self).contains_key(key@) && old(self).epoch_of(key@) == epoch),
            fired ==> !final(self).contains_key(key@),
            fired ==> forall|k: Seq<char>|
                k != key@ ==> final(self).contains_key(k) == old(self).contains_key(k),
            fired ==> forall|k: Seq<char>|
                k != key@ && old(self).contains_key(k) ==> final(self).epoch_of(k) == old(
                    self,
                ).epoch_of(k),
            !fired ==> *final(self) == *old(self),
    {
        match self.find(key) {
            Some(i) => {
                if self.entries[i].1 == epoch {
                    proof {
                        lemma_remove(self.entries@, i as int);
                    }
                    self.entries.remove(i);
                    true
                } else {
                    false
                }
            },
            None => false,
        }
    }
}

} // verus!
