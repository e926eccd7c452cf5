//! The header map: header names to raw value strings.
//!
//! The map is a vector of pairs with unique keys, so that contracts can
//! speak both of the key/value mapping and, where the serializer needs it,
//! of the exact order of entries. Callers that need case-insensitive names
//! lower the key before calling in, as the parser and the response builder
//! do.

use vstd::prelude::*;
use crate::strutil::lower_seq;

verus! {

/// Every key of the header map is already lower-case.
pub open spec fn all_lower_keys(pairs: Seq<(Seq<char>, Seq<char>)>) -> bool {
    forall|i: int| 0 <= i < pairs.len() ==> lower_seq((#[trigger] pairs[i]).0) == pairs[i].0
}

/// The views of a sequence of header entries.
pub open spec fn entry_views(s: Seq<(String, String)>) -> Seq<(Seq<char>, Seq<char>)> {
    s.map_values(|e: (String, String)| (e.0@, e.1@))
}

/// Entry `i` of `s` carries the key `k`.
pub open spec fn has_key_at(s: Seq<(Seq<char>, Seq<char>)>, k: Seq<char>, i: int) -> bool {
    0 <= i < s.len() && s[i].0 == k
}

/// Some entry of `s` carries the key `k`.
pub open spec fn pairs_contain(s: Seq<(Seq<char>, Seq<char>)>, k: Seq<char>) -> bool {
    exists|i: int| has_key_at(s, k, i)
}

/// The index of the entry carrying `k`.
pub open spec fn key_index(s: Seq<(Seq<char>, Seq<char>)>, k: Seq<char>) -> int {
    choose|i: int| has_key_at(s, k, i)
}

/// The value stored under `k`.
pub open spec fn pairs_value(s: Seq<(Seq<char>, Seq<char>)>, k: Seq<char>) -> Seq<char> {
    s[key_index(s, k)].1
}

/// No two entries of `s` carry the same key.
pub open spec fn unique_keys(s: Seq<(Seq<char>, Seq<char>)>) -> bool {
    forall|i: int, j: int| 0 <= i < j < s.len() ==> (#[trigger] s[i]).0 != (#[trigger] s[j]).0
}

/// With unique keys, an entry holding `k` is the entry `key_index` names.
pub proof fn lemma_key_at(s: Seq<(Seq<char>, Seq<char>)>, k: Seq<char>, i: int)
    requires
        unique_keys(s),
        has_key_at(s, k, i),
    ensures
        pairs_contain(s, k),
        key_index(s, k) == i,
        pairs_value(s, k) == s[i].1,
{
    let j = key_index(s, k);
    assert(has_key_at(s, k, j));
    if i < j {
        assert(s[i].0 != s[j].0);
    }
    if j < i {
        assert(s[j].0 != s[i].0);
    }
}

/// A mapping from header names to raw header values.
///
/// Insertion keeps the first position of a key and overwrites its value
/// (last value wins); a fresh key goes to the end.
#[derive(Debug)]
pub struct Headers {
    entries: Vec<(String, String)>,
}

impl Headers {
    /// The entries as a sequence of character-sequence pairs.
    pub closed spec fn pairs(&self) -> Seq<(Seq<char>, Seq<char>)> {
        entry_views(self.entries@)
    }

    /// Keys are unique.
    pub open spec fn wf(&self) -> bool {
        unique_keys(self.pairs())
    }

    /// Some entry carries the key `k`.
    pub open spec fn contains_key(&self, k: Seq<char>) -> bool {
        pairs_contain(self.pairs(), k)
    }

    /// The value stored under `k`.
    pub open spec fn value_of(&self, k: Seq<char>) -> Seq<char> {
        pairs_value(self.pairs(), k)
    }

    /// An empty header map.
    pub fn new() -> (r: Headers)
        ensures
            r.wf(),
            r.pairs() == Seq::<(Seq<char>, Seq<char>)>::empty(),
    {
        let r = Headers { entries: Vec::new() };
        proof {
            assert(r.pairs() =~= Seq::<(Seq<char>, Seq<char>)>::empty());
        }
        r
    }

    /// How many headers are stored.
    pub fn len(&self) -> (r: usize)
        ensures
            r == self.pairs().len(),
    {
        self.entries.len()
    }

    /// The entry at position `i`, in insertion order.
    pub fn pair_at(&self, i: usize) -> (r: (&String, &String))
        requires
            i < self.pairs().len(),
        ensures
            r.0@ == self.pairs()[i as int].0,
            r.1@ == self.pairs()[i as int].1,
    {
        let e = &self.entries[i];
        (&e.0, &e.1)
    }

    /// The position of the entry carrying `k@`, if one does.
    fn find(&self, k: &str) -> (r: Option<usize>)
        requires
            self.wf(),
        ensures
            match r {
                Some(i) => has_key_at(self.pairs(), k@, i as int) && key_index(self.pairs(), k@)
                    == i as int,
                None => !self.contains_key(k@),
            },
    {
        let n = self.entries.len();
        for i in 0..n
            invariant
                n == self.entries@.len(),
                self.wf(),
                forall|j: int| 0 <= j < i ==> (#[trigger] self.pairs()[j]).0 != k@,
        {
            if crate::strutil::str_eq(self.entries[i].0.as_str(), k) {
                proof {
                    lemma_key_at(self.pairs(), k@, i as int);
                }
                return Some(i);
            }
        }
        proof {
            if self.contains_key(k@) {
                let w = choose|w: int| has_key_at(self.pairs(), k@, w);
                assert(self.pairs()[w].0 != k@);
            }
        }
        None
    }

    /// The value stored under the exact key `k@`, if one is.
    pub fn get(&self, k: &str) -> (r: Option<&String>)
        requires
            self.wf(),
        ensures
            match r {
                Some(v) => self.contains_key(k@) && v@ == self.value_of(k@),
                None => !self.contains_key(k@),
            },
    {
        match self.find(k) {
            Some(i) => Some(&self.entries[i].1),
            None => None,
        }
    }

    /// True iff some entry carries the exact key `k@`.
    pub fn has(&self, k: &str) -> (r: bool)
        requires
            self.wf(),
        ensures
            r == self.contains_key(k@),
    {
        match self.find(k) {
            Some(_) => true,
            None => false,
        }
    }

    /// Stores `v` under `k`: overwrites in place when `k` is present,
    /// appends otherwise.
    pub fn insert(&mut self, k: String, v: String)
        requires
            old(self).wf(),
        ensures
            final(self).wf(),
            final(self).contains_key(k@),
            final(self).value_of(k@) == v@,
            old(self).contains_key(k@) ==> final(self).pairs() == old(self).pairs().update(
                key_index(old(self).pairs(), k@),
                (k@, v@),
            ),
            !old(self).contains_key(k@) ==> final(self).pairs() == old(self).pairs().push(
                (k@, v@),
            ),
            forall|k2: Seq<char>|
                k2 != k@ ==> #[trigger] final(self).contains_key(k2) == old(self).contains_key(k2),
            forall|k2: Seq<char>|
                k2 != k@ && old(self).contains_key(k2) ==> #[trigger] final(self).value_of(k2)
                    == old(self).value_of(k2),
            all_lower_keys(old(self).pairs()) && lower_seq(k@) == k@ ==> all_lower_keys(
                final(self).pairs(),
            ),
    {
        let ghost olds = self.pairs();
        match self.find(k.as_str()) {
            Some(i) => {
                self.entries[i] = (k, v);
                proof {
                    let ghost news = self.pairs();
                    assert(news =~= olds.update(key_index(olds, k@), (k@, v@)));
                    assert(unique_keys(news));
                    lemma_key_at(news, k@, key_index(olds, k@));
                    assert forall|k2: Seq<char>| k2 != k@ implies #[trigger] pairs_contain(
                        news,
                        k2,
                    ) == pairs_contain(olds, k2) by {
                        if pairs_contain(news, k2) {
                            let w = choose|w: int| has_key_at(news, k2, w);
                            assert(has_key_at(olds, k2, w));
                        }
                        if pairs_contain(olds, k2) {
                            let w = choose|w: int| has_key_at(olds, k2, w);
                            assert(has_key_at(news, k2, w));
                        }
                    }
                    assert forall|k2: Seq<char>|
                        k2 != k@ && pairs_contain(olds, k2) implies #[trigger] pairs_value(
                        news,
                        k2,
                    ) == pairs_value(olds, k2) by {
                        let w = choose|w: int| has_key_at(olds, k2, w);
                        lemma_key_at(olds, k2, w);
                        assert(has_key_at(news, k2, w));
                        lemma_key_at(news, k2, w);
                    }
                    if all_lower_keys(olds) && lower_seq(k@) == k@ {
                        assert forall|i: int| 0 <= i < news.len() implies lower_seq(
                            (#[trigger] news[i]).0,
                        ) == news[i].0 by {
                            if i != key_index(olds, k@) {
                                assert(news[i] == olds[i]);
                            }
                        }
                    }
                }
            },
            None => {
                self.entries.push((k, v));
                proof {
                    let ghost news = self.pairs();
                    assert(news =~= olds.push((k@, v@)));
                    assert forall|i: int, j: int| 0 <= i < j < news.len() implies (
                    #[trigger] news[i]).0 != (#[trigger] news[j]).0 by {
                        if j == news.len() - 1 {
                            assert(!has_key_at(olds, k@, i));
                        }
                    }
                    lemma_key_at(news, k@, news.len() - 1);
                    assert forall|k2: Seq<char>| k2 != k@ implies #[trigger] pairs_contain(
                        news,
                        k2,
                    ) == pairs_contain(olds, k2) by {
                        if pairs_contain(news, k2) {
                            let w = choose|w: int| has_key_at(news, k2, w);
                            assert(has_key_at(olds, k2, w));
                        }
                        if pairs_contain(olds, k2) {
                            let w = choose|w: int| has_key_at(olds, k2, w);
                            assert(has_key_at(news, k2, w));
                        }
                    }
                    assert forall|k2: Seq<char>|
                        k2 != k@ && pairs_contain(olds, k2) implies #[trigger] pairs_value(
                        news,
                        k2,
                    ) == pairs_value(olds, k2) by {
                        let w = choose|w: int| has_key_at(olds, k2, w);
                        lemma_key_at(olds, k2, w);
                        assert(has_key_at(news, k2, w));
                        lemma_key_at(news, k2, w);
                    }
                    if all_lower_keys(olds) && lower_seq(k@) == k@ {
                        assert forall|i: int| 0 <= i < news.len() implies lower_seq(
                            (#[trigger] news[i]).0,
                        ) == news[i].0 by {
                            if i < olds.len() {
                                assert(news[i] == olds[i]);
                            }
                        }
                    }
                }
            },
        }
    }

    /// Stores `v` under `k` only when `k` is absent.
    pub fn insert_if_absent(&mut self, k: String, v: String)
        requires
            old(self).wf(),
        ensures
            final(self).wf(),
            final(self).contains_key(k@),
            old(self).contains_key(k@) ==> *final(self) == *old(self) && final(self).value_of(k@)
                == old(self).value_of(k@),
            !old(self).contains_key(k@) ==> final(self).pairs() == old(self).pairs().push(
                (k@, v@),
            ) && final(self).value_of(k@) == v@,
            forall|k2: Seq<char>|
                k2 != k@ ==> #[trigger] final(self).contains_key(k2) == old(self).contains_key(k2),
            forall|k2: Seq<char>|
                k2 != k@ && old(self).contains_key(k2) ==> #[trigger] final(self).value_of(k2)
                    == old(self).value_of(k2),
            all_lower_keys(old(self).pairs()) && lower_seq(k@) == k@ ==> all_lower_keys(
                final(self).pairs(),
            ),
    {
        if !self.has(k.as_str()) {
            self.insert(k, v);
        } else {
            proof {
                let w = choose|w: int| has_key_at(self.pairs(), k@, w);
                lemma_key_at(self.pairs(), k@, w);
            }
        }
    }
}

} // verus!
