//! An ordered collection of validation messages, each under a unique key.
use vstd::prelude::*;

verus! {

/// One entry seen through its view: (key, message).
pub type EntryView = (Seq<char>, Seq<char>);

/// The view of a list of owned entries.
pub open spec fn entries_view(v: Seq<(String, String)>) -> Seq<EntryView> {
    v.map_values(|e: (String, String)| (e.0@, e.1@))
}

/// No key occurs twice.
pub open spec fn keys_unique(s: Seq<EntryView>) -> bool {
    forall|i: int, j: int|
        0 <= i < s.len() && 0 <= j < s.len() && #[trigger] s[i].0 == #[trigger] s[j].0 ==> i == j
}

/// Some entry carries key `k`.
pub open spec fn contains_key(s: Seq<EntryView>, k: Seq<char>) -> bool {
    exists|i: int| 0 <= i < s.len() && #[trigger] s[i].0 == k
}

/// The position of the entry with key `k` (meaningful when `contains_key(s, k)`).
pub open spec fn key_pos(s: Seq<EntryView>, k: Seq<char>) -> int {
    choose|i: int| 0 <= i < s.len() && #[trigger] s[i].0 == k
}

/// The entries after `set(k, m)`: the entry for `k` is overwritten in place,
/// or appended when there was none.
pub open spec fn set_entry(s: Seq<EntryView>, k: Seq<char>, m: Seq<char>) -> Seq<EntryView> {
    if contains_key(s, k) {
        s.update(key_pos(s, k), (k, m))
    } else {
        s.push((k, m))
    }
}

/// The entries after `remove(k)`: the entry for `k`, if any, is dropped and the
/// others keep their order.
pub open spec fn remove_entry(s: Seq<EntryView>, k: Seq<char>) -> Seq<EntryView> {
    if contains_key(s, k) {
        s.remove(key_pos(s, k))
    } else {
        s
    }
}

/// Validation messages keyed by a stable identifier, kept in insertion order.
pub struct KeyedNotifications {
    entries: Vec<(String, String)>,
}

impl View for KeyedNotifications {
    type V = Seq<EntryView>;

    closed spec fn view(&self) -> Seq<EntryView> {
        entries_view(self.entries@)
    }
}

/// Where `s` has an entry with key `k` at index `i`, that is the one `key_pos` names.
pub proof fn lemma_key_pos_unique(s: Seq<EntryView>, k: Seq<char>, i: int)
    requires
        keys_unique(s),
        0 <= i < s.len(),
        s[i].0 == k,
    ensures
        contains_key(s, k),
        key_pos(s, k) == i,
{
    assert(contains_key(s, k));
    let j = key_pos(s, k);
    assert(s[j].0 == s[i].0);
}

/// `k` occurs in exactly one entry of `s`, and that entry carries message `m`.
pub open spec fn holds_once(s: Seq<EntryView>, k: Seq<char>, m: Seq<char>) -> bool {
    exists|i: int|
        0 <= i < s.len() && #[trigger] s[i] == (k, m) && forall|j: int|
            0 <= j < s.len() && #[trigger] s[j].0 == k ==> j == i
}

/// Setting a key keeps keys unique, leaves exactly one entry for it holding the
/// new message, and adds an entry only where the key was absent.
pub proof fn lemma_set_entry(s: Seq<EntryView>, k: Seq<char>, m: Seq<char>)
    requires
        keys_unique(s),
    ensures
        keys_unique(set_entry(s, k, m)),
        holds_once(set_entry(s, k, m), k, m),
        set_entry(s, k, m).len() == if contains_key(s, k) { s.len() } else { s.len() + 1 },
{
    let r = set_entry(s, k, m);
    if contains_key(s, k) {
        let p = key_pos(s, k);
        assert forall|a: int, b: int|
            0 <= a < r.len() && 0 <= b < r.len() && #[trigger] r[a].0 == #[trigger] r[b].0 implies a
            == b by {
            if a != p && b != p {
                assert(s[a].0 == s[b].0);
            } else if a != p {
                assert(s[a].0 == s[p].0);
            } else if b != p {
                assert(s[b].0 == s[p].0);
            }
        }
        assert(r[p] == (k, m));
    } else {
        let n = s.len() as int;
        assert forall|a: int, b: int|
            0 <= a < r.len() && 0 <= b < r.len() && #[trigger] r[a].0 == #[trigger] r[b].0 implies a
            == b by {
            if a < n && b < n {
                assert(s[a].0 == s[b].0);
            } else if a < n {
                assert(s[a].0 == k);
            } else if b < n {
                assert(s[b].0 == k);
            }
        }
        assert(r[n] == (k, m));
    }
}

/// Removing a key keeps keys unique and leaves no entry for it.
pub proof fn lemma_remove_entry(s: Seq<EntryView>, k: Seq<char>)
    requires
        keys_unique(s),
    ensures
        keys_unique(remove_entry(s, k)),
        !contains_key(remove_entry(s, k), k),
{
    let r = remove_entry(s, k);
    if contains_key(s, k) {
        let p = key_pos(s, k);
        assert forall|a: int, b: int|
            0 <= a < r.len() && 0 <= b < r.len() && #[trigger] r[a].0 == #[trigger] r[b].0 implies a
            == b by {
            let oa = if a < p { a } else { a + 1 };
            let ob = if b < p { b } else { b + 1 };
            assert(s[oa].0 == r[a].0);
            assert(s[ob].0 == r[b].0);
        }
        if contains_key(r, k) {
            let a = key_pos(r, k);
            let oa = if a < p { a } else { a + 1 };
            assert(s[oa].0 == k);
            assert(s[p].0 == k);
        }
    }
}

/// Setting or removing key `k` leaves every other key's presence and message as
/// they were.
pub proof fn lemma_other_key_kept(s: Seq<EntryView>, k: Seq<char>, m: Seq<char>, other: Seq<char>)
    requires
        keys_unique(s),
        other != k,
    ensures
        contains_key(set_entry(s, k, m), other) == contains_key(s, other),
        contains_key(remove_entry(s, k), other) == contains_key(s, other),
        contains_key(s, other) ==> set_entry(s, k, m)[key_pos(set_entry(s, k, m), other)]
            == s[key_pos(s, other)],
        contains_key(s, other) ==> remove_entry(s, k)[key_pos(remove_entry(s, k), other)]
            == s[key_pos(s, other)],
{
    lemma_set_entry(s, k, m);
    lemma_remove_entry(s, k);
    let a = set_entry(s, k, m);
    let r = remove_entry(s, k);
    if contains_key(s, other) {
        let q = key_pos(s, other);
        if contains_key(s, k) {
            let p = key_pos(s, k);
            assert(q != p);
            assert(a[q] == s[q]);
            lemma_key_pos_unique(a, other, q);
            let rq = if q < p { q } else { q - 1 };
            assert(r[rq] == s[q]);
            lemma_key_pos_unique(r, other, rq);
        } else {
            assert(a[q] == s[q]);
            lemma_key_pos_unique(a, other, q);
        }
    } else {
        if contains_key(a, other) {
            let i = key_pos(a, other);
            assert(i < s.len() && s[i].0 == other);
        }
        if contains_key(r, other) {
            let i = key_pos(r, other);
            if contains_key(s, k) {
                let p = key_pos(s, k);
                let oi = if i < p { i } else { i + 1 };
                assert(s[oi].0 == other);
            } else {
                assert(s[i].0 == other);
            }
        }
    }
}

impl KeyedNotifications {
    /// Keys are unique.
    pub open spec fn wf(&self) -> bool {
        keys_unique(self@)
    }

    /// An empty collection.
    pub fn new() -> (r: KeyedNotifications)
        ensures
            r.wf(),
            r@ == Seq::<EntryView>::empty(),
    {
        let r = KeyedNotifications { entries: Vec::new() };
        assert(r@ =~= Seq::<EntryView>::empty());
        r
    }

    /// Where the entry for `key` stands, if there is one.
    fn find(&self, key: &String) -> (r: Option<usize>)
        requires
            self.wf(),
        ensures
            match r {
                Some(i) => contains_key(self@, key@) && i as int == key_pos(self@, key@),
                None => !contains_key(self@, key@),
            },
    {
        let mut i: usize = 0;
        while i < self.entries.len()
            invariant
                self.wf(),
                i <= self.entries@.len(),
                self@.len() == self.entries@.len(),
                forall|j: int| 0 <= j < i ==> #[trigger] self@[j].0 != key@,
            decreases self.entries@.len() - i,
        {
            if self.entries[i].0 == *key {
                proof {
                    lemma_key_pos_unique(self@, key@, i as int);
                }
                return Some(i);
            }
            i = i + 1;
        }
        None
    }

    /// Inserts the entry for `key`, or overwrites its message where the key is
    /// already present.
    pub fn set(&mut self, key: String, message: String)
        requires
            old(self).wf(),
        ensures
            final(self).wf(),
            final(self)@ == set_entry(old(self)@, key@, message@),
    {
        match self.find(&key) {
            Some(i) => {
                let ghost k = key@;
                let ghost m = message@;
                self.entries.set(i, (key, message));
                assert(self@ =~= set_entry(old(self)@, k, m));
                assert(keys_unique(self@)) by {
                    assert forall|a: int, b: int|
                        0 <= a < self@.len() && 0 <= b < self@.len() && #[trigger] self@[a].0
                            == #[trigger] self@[b].0 implies a == b by {
                        assert(old(self)@[a].0 == self@[a].0);
                        assert(old(self)@[b].0 == self@[b].0);
                    }
                }
            },
            None => {
                let ghost k = key@;
                let ghost m = message@;
                self.entries.push((key, message));
                assert(self@ =~= set_entry(old(self)@, k, m));
                assert(keys_unique(self@)) by {
                    assert forall|a: int, b: int|
                        0 <= a < self@.len() && 0 <= b < self@.len() && #[trigger] self@[a].0
                            == #[trigger] self@[b].0 implies a == b by {
                        if a < old(self)@.len() && b < old(self)@.len() {
                            assert(old(self)@[a].0 == self@[a].0);
                            assert(old(self)@[b].0 == self@[b].0);
                        } else if a < old(self)@.len() {
                            assert(old(self)@[a].0 == k);
                        } else if b < old(self)@.len() {
                            assert(old(self)@[b].0 == k);
                        }
                    }
                }
            },
        }
    }

    /// Drops the entry for `key`; nothing happens where there is none.
    pub fn remove(&mut self, key: &str)
        requires
            old(self).wf(),
        ensures
            final(self).wf(),
            final(self)@ == remove_entry(old(self)@, key@),
    {
        let k = key.to_owned();
        match self.find(&k) {
            Some(i) => {
                self.entries.remove(i);
                assert(self@ =~= remove_entry(old(self)@, k@));
                assert(keys_unique(self@)) by {
                    assert forall|a: int, b: int|
                        0 <= a < self@.len() && 0 <= b < self@.len() && #[trigger] self@[a].0
                            == #[trigger] self@[b].0 implies a == b by {
                        let oa = if a < i { a } else { a + 1 };
                        let ob = if b < i { b } else { b + 1 };
                        assert(old(self)@[oa].0 == self@[a].0);
                        assert(old(self)@[ob].0 == self@[b].0);
                    }
                }
            },
            None => {},
        }
    }

    /// Whether an entry carries `key`.
    pub fn has(&self, key: &str) -> (r: bool)
        requires
            self.wf(),
        ensures
            r == contains_key(self@, key@),
    {
        let k = key.to_owned();
        self.find(&k).is_some()
    }

    /// Whether any message is held.
    pub fn has_message(&self) -> (r: bool)
        ensures
            r == (self@.len() > 0),
    {
        self.entries.len() > 0
    }

    /// A snapshot of all entries, in insertion order.
    pub fn get_all(&self) -> (r: Vec<(String, String)>)
        ensures
            entries_view(r@) == self@,
    {
        let mut r: Vec<(String, String)> = Vec::new();
        let mut i: usize = 0;
        while i < self.entries.len()
            invariant
                i <= self.entries@.len(),
                r@.len() == i,
                forall|j: int| 0 <= j < i ==> #[trigger] entries_view(r@)[j] == self@[j],
            decreases self.entries@.len() - i,
        {
            let e = &self.entries[i];
            let ghost prev = r@;
            r.push((e.0.clone(), e.1.clone()));
            assert forall|j: int| 0 <= j < i + 1 implies #[trigger] entries_view(r@)[j] == self@[j] by {
                assert(entries_view(r@)[j] == (r@[j].0@, r@[j].1@));
                assert(self@[j] == (self.entries@[j].0@, self.entries@[j].1@));
                if j < i {
                    assert(r@[j] == prev[j]);
                    assert(entries_view(prev)[j] == (prev[j].0@, prev[j].1@));
                }
            }
            i = i + 1;
        }
        assert(entries_view(r@) =~= self@);
        r
    }

    /// Removes every entry.
    pub fn clear(&mut self)
        ensures
            final(self).wf(),
            final(self)@ == Seq::<EntryView>::empty(),
    {
        self.entries = Vec::new();
        assert(self@ =~= Seq::<EntryView>::empty());
    }
}

impl Default for KeyedNotifications {
    /// An empty collection.
    fn default() -> (r: KeyedNotifications)
        ensures
            r.wf(),
            r@ == Seq::<EntryView>::empty(),
    {
        KeyedNotifications::new()
    }
}

} // verus!
