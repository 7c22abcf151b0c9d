//! A small insertion-ordered string-to-string mapping, used for a request's
//! headers and for the path parameters captured by a route match.  Inserting
//! a key that is already present makes the new value the one looked up, so
//! only the last occurrence of a key is retained.
use crate::strutil::str_eq;
use vstd::prelude::*;

verus! {

/// The mapping described by a sequence of key/value pairs: a later pair
/// overrides an earlier one with the same key.
pub open spec fn pairs_map(entries: Seq<(Seq<char>, Seq<char>)>) -> Map<Seq<char>, Seq<char>>
    decreases entries.len(),
{
    if entries.len() == 0 {
        Map::empty()
    } else {
        pairs_map(entries.drop_last()).insert(entries.last().0, entries.last().1)
    }
}

proof fn lemma_pairs_map_found(entries: Seq<(Seq<char>, Seq<char>)>, k: Seq<char>, j: int)
    requires
        0 <= j < entries.len(),
        entries[j].0 == k,
        forall|jj: int| j < jj < entries.len() ==> entries[jj].0 != k,
    ensures
        pairs_map(entries).contains_key(k),
        pairs_map(entries)[k] == entries[j].1,
    decreases entries.len(),
{
    if j == entries.len() - 1 {
    } else {
        let head = entries.drop_last();
        lemma_pairs_map_found(head, k, j);
    }
}

proof fn lemma_pairs_map_absent(entries: Seq<(Seq<char>, Seq<char>)>, k: Seq<char>)
    requires
        forall|jj: int| 0 <= jj < entries.len() ==> entries[jj].0 != k,
    ensures
        !pairs_map(entries).contains_key(k),
    decreases entries.len(),
{
    if entries.len() > 0 {
        lemma_pairs_map_absent(entries.drop_last(), k);
    }
}

/// An insertion-ordered mapping from string keys to string values.
pub struct Dict {
    entries: Vec<(String, String)>,
}

impl View for Dict {
    type V = Map<Seq<char>, Seq<char>>;

    closed spec fn view(&self) -> Map<Seq<char>, Seq<char>> {
        pairs_map(self.entries.deep_view())
    }
}

impl Dict {
    /// An empty mapping.
    pub fn new() -> (d: Dict)
        ensures
            d@ == Map::<Seq<char>, Seq<char>>::empty(),
    {
        let d = Dict { entries: Vec::new() };
        proof {
            assert(d.entries.deep_view() =~= Seq::<(Seq<char>, Seq<char>)>::empty());
        }
        d
    }

    /// Binds `key` to `value`, overriding any earlier binding of `key`.
    pub fn insert(&mut self, key: String, value: String)
        ensures
            final(self)@ == old(self)@.insert(key@, value@),
    {
        let ghost prev = self.entries.deep_view();
        let ghost kv = (key@, value@);
        self.entries.push((key, value));
        proof {
            assert(self.entries.deep_view() =~= prev.push(kv));
            assert(self.entries.deep_view().drop_last() =~= prev);
        }
    }

    /// The value bound to `key`, if any.
    pub fn get(&self, key: &str) -> (r: Option<&String>)
        ensures
            match r {
                Some(v) => self@.contains_key(key@) && self@[key@] == v@,
                None => !self@.contains_key(key@),
            },
    {
        let mut j = self.entries.len();
        while j > 0
            invariant
                j <= self.entries.len(),
                forall|jj: int|
                    j <= jj < self.entries.len() ==> self.entries.deep_view()[jj].0 != key@,
            decreases j,
        {
            j = j - 1;
            if str_eq(self.entries[j].0.as_str(), key) {
                proof {
                    lemma_pairs_map_found(self.entries.deep_view(), key@, j as int);
                }
                return Some(&self.entries[j].1);
            }
        }
        proof {
            lemma_pairs_map_absent(self.entries.deep_view(), key@);
        }
        None
    }
}

} // verus!
