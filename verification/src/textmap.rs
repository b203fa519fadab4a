//! A map keyed by text, kept in key order (the order of `str`'s `Ord`).
use crate::text::{compare_text, lemma_text_lt_transitive, lemma_text_lt_trichotomy, same_text, text_lt, TextOrder};
use vstd::prelude::*;

verus! {

/// A key that is read as text.
pub trait TextKey: Sized {
    spec fn key_view(&self) -> Seq<char>;

    fn key_text(&self) -> (r: &str)
        ensures
            r@ == self.key_view(),
    ;
}

impl TextKey for String {
    open spec fn key_view(&self) -> Seq<char> {
        self@
    }

    fn key_text(&self) -> (r: &str) {
        self.as_str()
    }
}

impl<'a> TextKey for &'a str {
    open spec fn key_view(&self) -> Seq<char> {
        (**self)@
    }

    fn key_text(&self) -> (r: &str) {
        *self
    }
}

/// Entries sorted strictly by key text.
pub struct TextMap<K, V> {
    entries: Vec<(K, V)>,
}

impl<K: TextKey, V> TextMap<K, V> {
    /// The entries, in key order.
    pub closed spec fn pairs(&self) -> Seq<(K, V)> {
        self.entries@
    }

    pub open spec fn key_at(&self, i: int) -> Seq<char> {
        self.pairs()[i].0.key_view()
    }

    /// Keys are strictly increasing.
    pub open spec fn wf(&self) -> bool {
        forall|i: int, j: int|
            0 <= i < j < self.pairs().len() ==> #[trigger] text_lt(self.key_at(i), self.key_at(j))
    }

    pub open spec fn has(&self, k: Seq<char>) -> bool {
        exists|i: int| 0 <= i < self.pairs().len() && #[trigger] self.key_at(i) == k
    }

    pub open spec fn index_of_key(&self, k: Seq<char>) -> int {
        choose|i: int| 0 <= i < self.pairs().len() && #[trigger] self.key_at(i) == k
    }

    /// The map from key text to value.
    pub open spec fn view(&self) -> Map<Seq<char>, V> {
        Map::new(|k: Seq<char>| self.has(k), |k: Seq<char>| self.pairs()[self.index_of_key(k)].1)
    }

    /// In a well-formed map a key sits at exactly one position.
    pub proof fn lemma_index_of_key(&self, i: int)
        requires
            self.wf(),
            0 <= i < self.pairs().len(),
        ensures
            self.has(self.key_at(i)),
            self.index_of_key(self.key_at(i)) == i,
            self@.contains_key(self.key_at(i)),
            self@[self.key_at(i)] == self.pairs()[i].1,
    {
        let k = self.key_at(i);
        assert(self.has(k));
        let j = self.index_of_key(k);
        if j != i {
            lemma_text_lt_trichotomy(k, k);
            if j < i {
                assert(text_lt(self.key_at(j), self.key_at(i)));
            } else {
                assert(text_lt(self.key_at(i), self.key_at(j)));
            }
        }
    }

    /// An empty map.
    pub fn new() -> (m: Self)
        ensures
            m.wf(),
            m.pairs() == Seq::<(K, V)>::empty(),
            m@ == Map::<Seq<char>, V>::empty(),
    {
        let m = TextMap { entries: Vec::new() };
        assert(m@ =~= Map::<Seq<char>, V>::empty());
        m
    }

    /// The number of entries.
    pub fn len(&self) -> (n: usize)
        ensures
            n == self.pairs().len(),
    {
        self.entries.len()
    }

    /// The entries, in key order.
    pub fn entries(&self) -> (r: &Vec<(K, V)>)
        ensures
            r@ == self.pairs(),
    {
        &self.entries
    }

    /// The position of `key`, if present.
    pub fn position(&self, key: &str) -> (r: Option<usize>)
        requires
            self.wf(),
        ensures
            match r {
                Some(i) => i < self.pairs().len() && self.key_at(i as int) == key@,
                None => !self.has(key@),
            },
            r is Some <==> self@.contains_key(key@),
    {
        let mut i: usize = 0;
        while i < self.entries.len()
            invariant
                i <= self.entries@.len(),
                self.entries@ == self.pairs(),
                forall|j: int| 0 <= j < i ==> #[trigger] self.key_at(j) != key@,
            decreases self.entries@.len() - i,
        {
            if same_text(self.entries[i].0.key_text(), key) {
                assert(self.key_at(i as int) == key@);
                return Some(i);
            }
            i = i + 1;
        }
        None
    }

    /// The value under `key`.
    pub fn get(&self, key: &str) -> (r: Option<&V>)
        requires
            self.wf(),
        ensures
            match r {
                Some(v) => self@.contains_key(key@) && *v == self@[key@],
                None => !self@.contains_key(key@),
            },
    {
        match self.position(key) {
            Some(i) => {
                proof {
                    self.lemma_index_of_key(i as int);
                }
                Some(&self.entries[i].1)
            },
            None => None,
        }
    }

    /// Whether `key` is present.
    pub fn contains_key(&self, key: &str) -> (r: bool)
        requires
            self.wf(),
        ensures
            r == self@.contains_key(key@),
    {
        self.position(key).is_some()
    }

    /// Sets the value under the key, keeping key order.
    pub fn insert(&mut self, key: K, value: V)
        requires
            old(self).wf(),
        ensures
            final(self).wf(),
            final(self)@ == old(self)@.insert(key.key_view(), value),
    {
        let ghost k = key.key_view();
        let mut i: usize = 0;
        let n = self.entries.len();
        while i < n && compare_text(self.entries[i].0.key_text(), key.key_text()) == TextOrder::Less
            invariant
                n == self.entries@.len(),
                i <= n,
                self.entries@ == self.pairs(),
                k == key.key_view(),
                forall|j: int| 0 <= j < i ==> text_lt(#[trigger] self.key_at(j), k),
            decreases n - i,
        {
            i = i + 1;
        }
        let ghost old_map = *self;
        if i < n && same_text(self.entries[i].0.key_text(), key.key_text()) {
            self.entries.set(i, (key, value));
            proof {
                assert forall|a: int, b: int|
                    0 <= a < b < self.pairs().len() implies #[trigger] text_lt(
                    self.key_at(a),
                    self.key_at(b),
                ) by {
                    assert(text_lt(old_map.key_at(a), old_map.key_at(b)));
                }
                assert(self.key_at(i as int) == k);
                assert forall|q: Seq<char>| #[trigger]
                    self@.contains_key(q) == old_map@.insert(k, value).contains_key(q) by {
                    if old_map.has(q) {
                        let j = old_map.index_of_key(q);
                        assert(self.key_at(j) == q);
                    }
                    if q == k {
                        assert(self.key_at(i as int) == q);
                    }
                    if self.has(q) {
                        let j = self.index_of_key(q);
                        if j != i {
                            assert(old_map.key_at(j) == q);
                        }
                    }
                }
                assert forall|q: Seq<char>| #[trigger] self@.contains_key(q) implies self@[q]
                    == old_map@.insert(k, value)[q] by {
                    let j = self.index_of_key(q);
                    self.lemma_index_of_key(j);
                    if j != i {
                        assert(old_map.key_at(j) == q);
                        old_map.lemma_index_of_key(j);
                    }
                }
                assert(self@ =~= old_map@.insert(k, value));
            }
        } else {
            proof {
                if i < n {
                    lemma_text_lt_trichotomy(old_map.key_at(i as int), k);
                }
            }
            self.entries.insert(i, (key, value));
            proof {
                assert forall|a: int, b: int|
                    0 <= a < b < self.pairs().len() implies #[trigger] text_lt(
                    self.key_at(a),
                    self.key_at(b),
                ) by {
                    if a < i {
                        assert(self.key_at(a) == old_map.key_at(a));
                    } else if a > i {
                        assert(self.key_at(a) == old_map.key_at(a - 1));
                    }
                    if b < i {
                        assert(self.key_at(b) == old_map.key_at(b));
                    } else if b > i {
                        assert(self.key_at(b) == old_map.key_at(b - 1));
                    }
                    if b < i {
                        assert(text_lt(old_map.key_at(a), old_map.key_at(b)));
                    } else if b == i {
                        assert(text_lt(old_map.key_at(a), k));
                    } else if a < i {
                        if b - 1 > i {
                            assert(text_lt(old_map.key_at(i as int), old_map.key_at(b - 1)));
                            lemma_text_lt_transitive(k, old_map.key_at(i as int), old_map.key_at(b - 1));
                        }
                        lemma_text_lt_transitive(old_map.key_at(a), k, old_map.key_at(b - 1));
                    } else if a == i {
                        if b - 1 > i {
                            assert(text_lt(old_map.key_at(i as int), old_map.key_at(b - 1)));
                            lemma_text_lt_transitive(k, old_map.key_at(i as int), old_map.key_at(b - 1));
                        }
                    } else {
                        assert(text_lt(old_map.key_at(a - 1), old_map.key_at(b - 1)));
                    }
                }
                assert forall|q: Seq<char>| #[trigger]
                    self@.contains_key(q) == old_map@.insert(k, value).contains_key(q) by {
                    if old_map.has(q) {
                        let j = old_map.index_of_key(q);
                        if j < i {
                            assert(self.key_at(j) == q);
                        } else {
                            assert(self.key_at(j + 1) == q);
                        }
                    }
                    if q == k {
                        assert(self.key_at(i as int) == q);
                    }
                    if self.has(q) {
                        let j = self.index_of_key(q);
                        if j < i {
                            assert(old_map.key_at(j) == q);
                        } else if j > i {
                            assert(old_map.key_at(j - 1) == q);
                        }
                    }
                }
                assert forall|q: Seq<char>| #[trigger] self@.contains_key(q) implies self@[q]
                    == old_map@.insert(k, value)[q] by {
                    let j = self.index_of_key(q);
                    self.lemma_index_of_key(j);
                    if j < i {
                        assert(old_map.key_at(j) == q);
                        old_map.lemma_index_of_key(j);
                        if q == k {
                            lemma_text_lt_trichotomy(k, k);
                        }
                    } else if j > i {
                        assert(old_map.key_at(j - 1) == q);
                        old_map.lemma_index_of_key(j - 1);
                        if q == k {
                            lemma_text_lt_trichotomy(k, k);
                            assert(text_lt(self.key_at(i as int), self.key_at(j)));
                        }
                    }
                }
                assert(self@ =~= old_map@.insert(k, value));
            }
        }
    }

    /// Removes the entry under `key`, giving back its value.
    pub fn remove(&mut self, key: &str) -> (r: Option<V>)
        requires
            old(self).wf(),
        ensures
            final(self).wf(),
            final(self)@ == old(self)@.remove(key@),
            match r {
                Some(v) => old(self)@.contains_key(key@) && v == old(self)@[key@],
                None => !old(self)@.contains_key(key@),
            },
    {
        let ghost old_map = *self;
        match self.position(key) {
            Some(i) => {
                proof {
                    old_map.lemma_index_of_key(i as int);
                }
                let (_, v) = self.entries.remove(i);
                proof {
                    assert forall|a: int, b: int|
                        0 <= a < b < self.pairs().len() implies #[trigger] text_lt(
                        self.key_at(a),
                        self.key_at(b),
                    ) by {
                        if b < i {
                            assert(text_lt(old_map.key_at(a), old_map.key_at(b)));
                        } else if a < i {
                            assert(text_lt(old_map.key_at(a), old_map.key_at(b + 1)));
                        } else {
                            assert(text_lt(old_map.key_at(a + 1), old_map.key_at(b + 1)));
                        }
                    }
                    let k = key@;
                    assert forall|q: Seq<char>| #[trigger]
                        self@.contains_key(q) == old_map@.remove(k).contains_key(q) by {
                        if old_map.has(q) && q != k {
                            let j = old_map.index_of_key(q);
                            if j < i {
                                assert(self.key_at(j) == q);
                            } else {
                                assert(j != i);
                                assert(self.key_at(j - 1) == q);
                            }
                        }
                        if self.has(q) {
                            let j = self.index_of_key(q);
                            if j < i {
                                assert(old_map.key_at(j) == q);
                                old_map.lemma_index_of_key(j);
                            } else {
                                assert(old_map.key_at(j + 1) == q);
                                old_map.lemma_index_of_key(j + 1);
                            }
                        }
                    }
                    assert forall|q: Seq<char>| #[trigger] self@.contains_key(q) implies self@[q]
                        == old_map@.remove(k)[q] by {
                        let j = self.index_of_key(q);
                        self.lemma_index_of_key(j);
                        if j < i {
                            assert(old_map.key_at(j) == q);
                            old_map.lemma_index_of_key(j);
                        } else {
                            assert(old_map.key_at(j + 1) == q);
                            old_map.lemma_index_of_key(j + 1);
                        }
                    }
                    assert(self@ =~= old_map@.remove(k));
                }
                Some(v)
            },
            None => {
                assert(self@ =~= old_map@.remove(key@));
                None
            },
        }
    }

    /// Removes every entry, giving them back in key order.
    pub fn take_all(&mut self) -> (r: Vec<(K, V)>)
        ensures
            final(self).wf(),
            final(self).pairs() == Seq::<(K, V)>::empty(),
            final(self)@ == Map::<Seq<char>, V>::empty(),
            r@ == old(self).pairs(),
    {
        let mut r = Vec::new();
        std::mem::swap(&mut r, &mut self.entries);
        assert(self@ =~= Map::<Seq<char>, V>::empty());
        r
    }
}

} // verus!
