//! A small table from language names to texts, kept in insertion order.

use vstd::prelude::*;

use crate::challenges::challenge_trait::{text_of, texts};
use crate::text::same_text;

verus! {

/// One row of a [`LanguageTable`].
pub struct LanguageEntry {
    pub language: String,
    pub text: String,
}

/// The first row of `pairs` under `key` is row `i`.
pub open spec fn is_first(pairs: Seq<(Seq<char>, Seq<char>)>, key: Seq<char>, i: int) -> bool {
    &&& 0 <= i < pairs.len()
    &&& pairs[i].0 == key
    &&& forall|j: int| 0 <= j < i ==> (#[trigger] pairs[j]).0 != key
}

/// Some row of `pairs` stands under `key`.
pub open spec fn has_key(pairs: Seq<(Seq<char>, Seq<char>)>, key: Seq<char>) -> bool {
    exists|i: int| is_first(pairs, key, i)
}

/// The row at which `key` is found first. Meaningful where `has_key` holds.
pub open spec fn position(pairs: Seq<(Seq<char>, Seq<char>)>, key: Seq<char>) -> int {
    choose|i: int| is_first(pairs, key, i)
}

/// The text on file under `key`, if any.
pub open spec fn lookup(pairs: Seq<(Seq<char>, Seq<char>)>, key: Seq<char>) -> Option<Seq<char>> {
    if has_key(pairs, key) {
        Some(pairs[position(pairs, key)].1)
    } else {
        None
    }
}

/// The table after `value` has been filed under `key`: the row of `key` is
/// overwritten where there is one, and a new row is added at the end where
/// there is none.
pub open spec fn put(pairs: Seq<(Seq<char>, Seq<char>)>, key: Seq<char>, value: Seq<char>) -> Seq<
    (Seq<char>, Seq<char>),
> {
    if has_key(pairs, key) {
        pairs.update(position(pairs, key), (key, value))
    } else {
        pairs.push((key, value))
    }
}

/// The keys of the rows, in order.
pub open spec fn keys_of(pairs: Seq<(Seq<char>, Seq<char>)>) -> Seq<Seq<char>> {
    Seq::new(pairs.len(), |i: int| pairs[i].0)
}

/// A key is found first at one row only.
pub proof fn lemma_first_unique(pairs: Seq<(Seq<char>, Seq<char>)>, key: Seq<char>, i: int)
    requires
        is_first(pairs, key, i),
    ensures
        has_key(pairs, key),
        position(pairs, key) == i,
        lookup(pairs, key) == Some(pairs[i].1),
{
    assert(is_first(pairs, key, position(pairs, key)));
}

/// A key that heads no row is not in the table.
pub proof fn lemma_absent(pairs: Seq<(Seq<char>, Seq<char>)>, key: Seq<char>)
    requires
        forall|j: int| 0 <= j < pairs.len() ==> (#[trigger] pairs[j]).0 != key,
    ensures
        !has_key(pairs, key),
        lookup(pairs, key) is None,
{
    if has_key(pairs, key) {
        let p = position(pairs, key);
        assert(is_first(pairs, key, p));
    }
}

/// A key that heads some row is found first at some row.
pub proof fn lemma_present(pairs: Seq<(Seq<char>, Seq<char>)>, key: Seq<char>, i: int)
    requires
        0 <= i < pairs.len(),
        pairs[i].0 == key,
    ensures
        has_key(pairs, key),
    decreases i,
{
    if forall|j: int| 0 <= j < i ==> (#[trigger] pairs[j]).0 != key {
        assert(is_first(pairs, key, i));
    } else {
        let j = choose|j: int| 0 <= j < i && (#[trigger] pairs[j]).0 == key;
        lemma_present(pairs, key, j);
    }
}

/// The keys of the table are the keys under which a text is found.
pub proof fn lemma_keys_are_found(pairs: Seq<(Seq<char>, Seq<char>)>, key: Seq<char>)
    ensures
        keys_of(pairs).contains(key) <==> lookup(pairs, key) is Some,
{
    if keys_of(pairs).contains(key) {
        let i = choose|i: int| 0 <= i < keys_of(pairs).len() && keys_of(pairs)[i] == key;
        lemma_present(pairs, key, i);
    }
    if has_key(pairs, key) {
        let p = position(pairs, key);
        assert(keys_of(pairs)[p] == key);
    }
}

/// Filing a text under a key changes what is found under that key and
/// nothing else.
pub proof fn lemma_lookup_put(
    pairs: Seq<(Seq<char>, Seq<char>)>,
    key: Seq<char>,
    value: Seq<char>,
    other: Seq<char>,
)
    ensures
        lookup(put(pairs, key, value), other) == if other == key {
            Some(value)
        } else {
            lookup(pairs, other)
        },
{
    let after = put(pairs, key, value);
    if has_key(pairs, key) {
        let p = position(pairs, key);
        if other == key {
            lemma_first_unique(after, key, p);
        } else if has_key(pairs, other) {
            let q = position(pairs, other);
            lemma_first_unique(after, other, q);
        } else {
            if has_key(after, other) {
                let q = position(after, other);
                lemma_present(pairs, other, q);
            }
        }
    } else {
        let n = pairs.len() as int;
        if other == key {
            assert forall|j: int| 0 <= j < n implies (#[trigger] after[j]).0 != key by {
                if pairs[j].0 == key {
                    lemma_present(pairs, key, j);
                }
            }
            lemma_first_unique(after, key, n);
        } else if has_key(pairs, other) {
            let q = position(pairs, other);
            lemma_first_unique(after, other, q);
        } else {
            if has_key(after, other) {
                let q = position(after, other);
                lemma_present(pairs, other, q);
            }
        }
    }
}

/// A table from language names to texts. No language stands in it twice, and
/// the rows keep the order in which their languages were first filed.
pub struct LanguageTable {
    entries: Vec<LanguageEntry>,
}

impl View for LanguageTable {
    type V = Seq<(Seq<char>, Seq<char>)>;

    closed spec fn view(&self) -> Seq<(Seq<char>, Seq<char>)> {
        Seq::new(self.entries@.len(), |i: int| (self.entries@[i].language@, self.entries@[i].text@))
    }
}

impl LanguageTable {
    /// Well-formedness: no language stands in the table twice.
    pub open spec fn wf(&self) -> bool {
        keys_of(self@).no_duplicates()
    }

    /// An empty table.
    pub fn new() -> (r: Self)
        ensures
            r@ == Seq::<(Seq<char>, Seq<char>)>::empty(),
            r.wf(),
    {
        let r = LanguageTable { entries: Vec::new() };
        r
    }

    /// The number of languages on file.
    pub fn len(&self) -> (n: usize)
        ensures
            n == self@.len(),
    {
        self.entries.len()
    }

    fn find(&self, language: &str) -> (r: Option<usize>)
        ensures
            match r {
                Some(i) => is_first(self@, language@, i as int),
                None => forall|j: int| 0 <= j < self@.len() ==> (#[trigger] self@[j]).0 != language@,
            },
    {
        let mut i: usize = 0;
        while i < self.entries.len()
            invariant
                i <= self.entries@.len(),
                forall|j: int| 0 <= j < i ==> (#[trigger] self@[j]).0 != language@,
            decreases self.entries@.len() - i,
        {
            if same_text(self.entries[i].language.as_str(), language) {
                return Some(i);
            }
            i += 1;
        }
        None
    }

    /// Files `text` under `language`, in place of what was on file for it.
    pub fn insert(&mut self, language: &str, text: &str)
        ensures
            final(self)@ == put(old(self)@, language@, text@),
            old(self).wf() ==> final(self).wf(),
    {
        let entry = LanguageEntry {
            language: String::from_str(language),
            text: String::from_str(text),
        };
        match self.find(language) {
            Some(i) => {
                proof {
                    lemma_first_unique(self@, language@, i as int);
                }
                self.entries.set(i, entry);
                assert(keys_of(self@) =~= keys_of(old(self)@));
            },
            None => {
                proof {
                    lemma_absent(self@, language@);
                }
                self.entries.push(entry);
                assert(self@ =~= put(old(self)@, language@, text@));
                assert forall|a: int, b: int|
                    old(self).wf() && 0 <= a < self@.len() && 0 <= b < self@.len() && a
                        != b implies keys_of(self@)[a] != keys_of(self@)[b] by {
                    let n = old(self)@.len() as int;
                    if a < n && b < n {
                        assert(keys_of(old(self)@)[a] != keys_of(old(self)@)[b]);
                    }
                }
            },
        }
    }

    /// The text on file for `language`.
    pub fn get(&self, language: &str) -> (r: Option<String>)
        ensures
            text_of(r) == lookup(self@, language@),
    {
        match self.find(language) {
            Some(i) => {
                proof {
                    lemma_first_unique(self@, language@, i as int);
                }
                Some(self.entries[i].text.clone())
            },
            None => {
                proof {
                    lemma_absent(self@, language@);
                }
                None
            },
        }
    }

    /// Tells whether a text is on file for `language`.
    pub fn contains_key(&self, language: &str) -> (b: bool)
        ensures
            b == has_key(self@, language@),
    {
        match self.find(language) {
            Some(i) => {
                proof {
                    lemma_first_unique(self@, language@, i as int);
                }
                true
            },
            None => {
                proof {
                    lemma_absent(self@, language@);
                }
                false
            },
        }
    }

    /// The languages on file, in the order in which they were first filed.
    pub fn languages(&self) -> (r: Vec<&str>)
        ensures
            texts(r@) == keys_of(self@),
    {
        let mut out: Vec<&str> = Vec::new();
        let mut i: usize = 0;
        while i < self.entries.len()
            invariant
                i <= self.entries@.len(),
                out@.len() == i,
                forall|k: int| 0 <= k < i ==> (#[trigger] out@[k])@ == self@[k].0,
            decreases self.entries@.len() - i,
        {
            out.push(self.entries[i].language.as_str());
            i += 1;
        }
        out
    }
}

} // verus!
