//! The ledger: an in-memory mapping from project key to accumulated whole
//! seconds, the persisted heart of the tracker.
//!
//! Entries are stored in insertion order and `list` reports them in that
//! order, so listing is deterministic (the source of truth is a plain
//! sequence of entries, not a hash container). The mathematical view of a
//! ledger is a `Map<Seq<char>, int>` from key characters to seconds.
use vstd::prelude::*;

use crate::ErrorKind;

verus! {

/// One ledger entry: a project key and its accumulated whole seconds.
struct Entry {
    key: String,
    seconds: i64,
}

/// Mapping from project key to accumulated seconds, in insertion order.
pub struct Ledger {
    entries: Vec<Entry>,
}

/// The seconds a ledger map holds for `key`: its value when the key is
/// present, and zero otherwise.
pub open spec fn get_or_zero(m: Map<Seq<char>, int>, key: Seq<char>) -> int {
    if m.contains_key(key) {
        m[key]
    } else {
        0
    }
}

/// Folds a sequence of (key, seconds) pairs into a map, later pairs winning.
pub open spec fn seq_to_map(s: Seq<(Seq<char>, int)>) -> Map<Seq<char>, int>
    decreases s.len(),
{
    if s.len() == 0 {
        Map::empty()
    } else {
        seq_to_map(s.drop_last()).insert(s.last().0, s.last().1)
    }
}

/// The key order after an addition: a key already in the map keeps the
/// order as it is, a fresh key is appended after all existing keys.
pub open spec fn keys_after_add(
    keys: Seq<Seq<char>>,
    m: Map<Seq<char>, int>,
    key: Seq<char>,
) -> Seq<Seq<char>> {
    if m.contains_key(key) {
        keys
    } else {
        keys.push(key)
    }
}

/// No key occurs twice in the pair sequence.
pub open spec fn distinct_keys(s: Seq<(Seq<char>, int)>) -> bool {
    forall|i: int, j: int| 0 <= i < j < s.len() ==> s[i].0 != s[j].0
}

impl View for Ledger {
    type V = Map<Seq<char>, int>;

    closed spec fn view(&self) -> Map<Seq<char>, int> {
        seq_to_map(self.pairs())
    }
}

/// A key present somewhere in the pair sequence is in the folded map.
proof fn lemma_seq_to_map_found(s: Seq<(Seq<char>, int)>, i: int)
    requires
        distinct_keys(s),
        0 <= i < s.len(),
    ensures
        seq_to_map(s).contains_key(s[i].0),
        seq_to_map(s)[s[i].0] == s[i].1,
    decreases s.len(),
{
    if i == s.len() - 1 {
    } else {
        lemma_seq_to_map_found(s.drop_last(), i);
    }
}

/// A key absent from the pair sequence is absent from the folded map.
proof fn lemma_seq_to_map_absent(s: Seq<(Seq<char>, int)>, key: Seq<char>)
    requires
        forall|i: int| 0 <= i < s.len() ==> s[i].0 != key,
    ensures
        !seq_to_map(s).contains_key(key),
    decreases s.len(),
{
    if s.len() > 0 {
        lemma_seq_to_map_absent(s.drop_last(), key);
    }
}

/// Appending a fresh pair folds to inserting it into the map.
proof fn lemma_seq_to_map_push(s: Seq<(Seq<char>, int)>, key: Seq<char>, v: int)
    ensures
        seq_to_map(s.push((key, v))) == seq_to_map(s).insert(key, v),
{
    assert(s.push((key, v)).drop_last() =~= s);
}

/// Overwriting the pair at a key's index folds to inserting the new value.
proof fn lemma_seq_to_map_update(s: Seq<(Seq<char>, int)>, i: int, v: int)
    requires
        distinct_keys(s),
        0 <= i < s.len(),
    ensures
        seq_to_map(s.update(i, (s[i].0, v))) == seq_to_map(s).insert(s[i].0, v),
    decreases s.len(),
{
    let t = s.update(i, (s[i].0, v));
    if i == s.len() - 1 {
        assert(t.drop_last() =~= s.drop_last());
        assert(seq_to_map(t) =~= seq_to_map(s).insert(s[i].0, v));
    } else {
        assert(t.drop_last() =~= s.drop_last().update(i, (s[i].0, v)));
        lemma_seq_to_map_update(s.drop_last(), i, v);
        assert(s.last().0 != s[i].0);
        assert(seq_to_map(t) =~= seq_to_map(s).insert(s[i].0, v));
    }
}

/// Removing the pair at a key's index folds to removing the key.
proof fn lemma_seq_to_map_remove(s: Seq<(Seq<char>, int)>, i: int)
    requires
        distinct_keys(s),
        0 <= i < s.len(),
    ensures
        seq_to_map(s.remove(i)) == seq_to_map(s).remove(s[i].0),
    decreases s.len(),
{
    let t = s.remove(i);
    if i == s.len() - 1 {
        assert(t =~= s.drop_last());
        lemma_seq_to_map_absent(s.drop_last(), s[i].0);
        assert(seq_to_map(t) =~= seq_to_map(s).remove(s[i].0));
    } else {
        assert(t.drop_last() =~= s.drop_last().remove(i));
        assert(t.last() == s.last());
        lemma_seq_to_map_remove(s.drop_last(), i);
        assert(s.last().0 != s[i].0);
        assert(seq_to_map(t) =~= seq_to_map(s).remove(s[i].0));
    }
}

impl Ledger {
    /// The (key, seconds) pairs in storage order.
    pub closed spec fn pairs(&self) -> Seq<(Seq<char>, int)> {
        self.entries@.map_values(|e: Entry| (e.key@, e.seconds as int))
    }

    /// The keys in storage order.
    pub open spec fn keys(&self) -> Seq<Seq<char>> {
        self.pairs().map_values(|p: (Seq<char>, int)| p.0)
    }

    /// Well-formed: every key occurs at most once.
    pub open spec fn wf(&self) -> bool {
        distinct_keys(self.pairs())
    }

    /// A fresh, empty ledger.
    pub fn new() -> (r: Ledger)
        ensures
            r.wf(),
            r@ == Map::<Seq<char>, int>::empty(),
            r.keys() == Seq::<Seq<char>>::empty(),
    {
        let r = Ledger { entries: Vec::new() };
        proof {
            assert(r.pairs() =~= Seq::<(Seq<char>, int)>::empty());
            assert(r.keys() =~= Seq::<Seq<char>>::empty());
        }
        r
    }

    /// The index of `key` in storage, if it is present.
    fn find(&self, key: &String) -> (r: Option<usize>)
        requires
            self.wf(),
        ensures
            match r {
                Some(i) => i < self.pairs().len() && self.pairs()[i as int].0 == key@,
                None => forall|i: int| 0 <= i < self.pairs().len() ==> self.pairs()[i].0 != key@,
            },
    {
        let n = self.entries.len();
        let mut i: usize = 0;
        while i < n
            invariant
                n == self.entries.len(),
                i <= n,
                forall|j: int| 0 <= j < i ==> self.pairs()[j].0 != key@,
            decreases n - i,
        {
            proof {
                assert(self.pairs()[i as int] == (self.entries@[i as int].key@, self.entries@[
                    i as int].seconds as int));
            }
            if self.entries[i].key == *key {
                return Some(i);
            }
            i += 1;
        }
        None
    }

    /// Accumulated seconds for `key`; zero when the key is absent. Never
    /// errors.
    pub fn get(&self, key: &String) -> (r: i64)
        requires
            self.wf(),
        ensures
            r as int == get_or_zero(self@, key@),
    {
        match self.find(key) {
            Some(i) => {
                proof {
                    lemma_seq_to_map_found(self.pairs(), i as int);
                }
                self.entries[i].seconds
            }
            None => {
                proof {
                    lemma_seq_to_map_absent(self.pairs(), key@);
                }
                0
            }
        }
    }

    /// Adds `delta` seconds to `key`, so that the key afterwards holds its
    /// old accumulated seconds plus `delta`. A negative `delta` is accepted
    /// (used for corrections); the key is present afterwards either way. A
    /// key seen for the first time is appended after all existing keys.
    pub fn add(&mut self, key: String, delta: i64)
        requires
            old(self).wf(),
            i64::MIN <= get_or_zero(old(self)@, key@) + delta <= i64::MAX,
        ensures
            final(self).wf(),
            final(self)@ == old(self)@.insert(key@, get_or_zero(old(self)@, key@) + delta),
            final(self).keys() == keys_after_add(old(self).keys(), old(self)@, key@),
    {
        match self.find(&key) {
            Some(i) => {
                proof {
                    lemma_seq_to_map_found(self.pairs(), i as int);
                }
                let cur = self.entries[i].seconds;
                self.entries[i].seconds = cur + delta;
                proof {
                    assert(self.pairs() =~= old(self).pairs().update(
                        i as int,
                        (key@, (cur + delta) as int),
                    ));
                    lemma_seq_to_map_update(old(self).pairs(), i as int, (cur + delta) as int);
                    assert(final(self).keys() =~= old(self).keys());
                }
            }
            None => {
                proof {
                    lemma_seq_to_map_absent(self.pairs(), key@);
                    lemma_seq_to_map_push(self.pairs(), key@, delta as int);
                }
                self.entries.push(Entry { key, seconds: delta });
                proof {
                    assert(self.pairs() =~= old(self).pairs().push((key@, delta as int)));
                    assert(final(self).keys() =~= old(self).keys().push(key@));
                }
            }
        }
    }

    /// Deletes `key` from the ledger entirely (it does not zero it). Fails
    /// with `NotFound`, leaving the ledger untouched, exactly when the key
    /// is absent.
    pub fn remove(&mut self, key: &String) -> (r: Result<(), ErrorKind>)
        requires
            old(self).wf(),
        ensures
            final(self).wf(),
            r is Ok <==> old(self)@.contains_key(key@),
            match r {
                Ok(()) => final(self)@ == old(self)@.remove(key@) && (exists|i: int|
                    0 <= i < old(self).keys().len() && old(self).keys()[i] == key@
                        && final(self).keys() == old(self).keys().remove(i)),
                Err(e) => e == ErrorKind::NotFound && *final(self) == *old(self),
            },
    {
        match self.find(key) {
            Some(i) => {
                proof {
                    lemma_seq_to_map_found(self.pairs(), i as int);
                    lemma_seq_to_map_remove(self.pairs(), i as int);
                }
                self.entries.remove(i);
                proof {
                    assert(self.pairs() =~= old(self).pairs().remove(i as int));
                    assert(final(self).keys() =~= old(self).keys().remove(i as int));
                    assert(old(self).keys()[i as int] == key@);
                }
                Ok(())
            }
            None => {
                proof {
                    lemma_seq_to_map_absent(self.pairs(), key@);
                }
                Err(ErrorKind::NotFound)
            }
        }
    }

    /// Removes every key. Destructive and without undo: the caller is
    /// expected to confirm with the user first.
    pub fn clear(&mut self)
        ensures
            final(self).wf(),
            final(self)@ == Map::<Seq<char>, int>::empty(),
            final(self).keys() == Seq::<Seq<char>>::empty(),
    {
        self.entries.clear();
        proof {
            assert(self.pairs() =~= Seq::<(Seq<char>, int)>::empty());
            assert(self.keys() =~= Seq::<Seq<char>>::empty());
        }
    }

    /// Every (key, seconds) pair, in insertion order. The order is
    /// deterministic: a key keeps its position for as long as it stays in
    /// the ledger.
    pub fn list(&self) -> (r: Vec<(String, i64)>)
        requires
            self.wf(),
        ensures
            r@.len() == self.keys().len(),
            forall|i: int| 0 <= i < r@.len() ==> (#[trigger] r@[i]).0@ == self.keys()[i],
            forall|i: int|
                0 <= i < r@.len() ==> (#[trigger] r@[i]).1 as int == get_or_zero(
                    self@,
                    self.keys()[i],
                ),
    {
        let n = self.entries.len();
        let mut r: Vec<(String, i64)> = Vec::new();
        let mut i: usize = 0;
        while i < n
            invariant
                self.wf(),
                n == self.entries.len(),
                i <= n,
                r@.len() == i,
                forall|j: int| 0 <= j < i ==> (#[trigger] r@[j]).0@ == self.keys()[j],
                forall|j: int|
                    0 <= j < i ==> (#[trigger] r@[j]).1 as int == get_or_zero(
                        self@,
                        self.keys()[j],
                    ),
            decreases n - i,
        {
            proof {
                lemma_seq_to_map_found(self.pairs(), i as int);
            }
            let key = self.entries[i].key.clone();
            let seconds = self.entries[i].seconds;
            r.push((key, seconds));
            i += 1;
        }
        r
    }
}

/// A fresh ledger reports zero seconds for every key.
pub proof fn lemma_fresh_get_zero(key: Seq<char>)
    ensures
        get_or_zero(Map::<Seq<char>, int>::empty(), key) == 0,
{
}

/// Adding `delta` to a key leaves exactly its old seconds plus `delta`
/// there, and leaves every other key's seconds untouched.
pub proof fn lemma_add_get(m: Map<Seq<char>, int>, key: Seq<char>, delta: int, other: Seq<char>)
    ensures
        get_or_zero(m.insert(key, get_or_zero(m, key) + delta), key) == get_or_zero(m, key)
            + delta,
        other != key ==> get_or_zero(m.insert(key, get_or_zero(m, key) + delta), other)
            == get_or_zero(m, other),
{
}

/// Two additions to the same key accumulate: from a fresh ledger, adding
/// `d1` and then `d2` leaves `d1 + d2` for that key.
pub proof fn lemma_add_twice(key: Seq<char>, d1: int, d2: int)
    ensures
        ({
            let m0 = Map::<Seq<char>, int>::empty();
            let m1 = m0.insert(key, get_or_zero(m0, key) + d1);
            let m2 = m1.insert(key, get_or_zero(m1, key) + d2);
            get_or_zero(m2, key) == d1 + d2
        }),
{
}

} // verus!
