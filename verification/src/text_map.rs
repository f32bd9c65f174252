//! A map keyed by text, held as entries in strictly ascending key order:
//! every key occurs once, and the entries are handed out sorted, as a
//! sorted map hands them out.

use vstd::prelude::*;
use crate::canonical_json::sort_keys::{
    insert_entry, keys_ascending, lemma_insert_entry_ascending, lemma_insert_entry_skip,
    lemma_sort_entries, sort_entries, Keyed,
};
use crate::keys::{lemma_text_lt_total, text_less, text_lt};

verus! {

/// The entries with each key taken by content.
pub open spec fn keyed_view<V>(v: Seq<(String, V)>) -> Seq<Keyed<V>> {
    v.map_values(|p: (String, V)| (p.0@, p.1))
}

/// Inserts `(key, value)` into a key-ordered list: an equal key is
/// replaced in place, otherwise the entry goes before the first greater
/// key.
fn insert_keyed<V>(sorted: &mut Vec<(String, V)>, key: String, value: V)
    ensures
        keyed_view(final(sorted)@) == insert_entry(keyed_view(old(sorted)@), (key@, value)),
{
    let ghost e: Keyed<V> = (key@, value);
    let ghost s = keyed_view(sorted@);
    let mut p: usize = 0;
    while p < sorted.len() && text_less(sorted[p].0.as_str(), key.as_str())
        invariant
            p <= sorted@.len(),
            s == keyed_view(sorted@),
            e == (key@, value),
            forall|j: int| 0 <= j < p ==> text_lt(#[trigger] s[j].0, e.0),
        decreases sorted@.len() - p,
    {
        p = p + 1;
    }
    proof {
        lemma_insert_entry_skip(s, e, p as int);
    }
    if p < sorted.len() && crate::text::str_eq(sorted[p].0.as_str(), key.as_str()) {
        proof {
            assert(s.skip(p as int)[0] == s[p as int]);
            assert(s.skip(p as int).drop_first() =~= s.skip(p as int + 1));
        }
        sorted.set(p, (key, value));
        proof {
            assert(keyed_view(sorted@) =~= s.take(p as int) + insert_entry(s.skip(p as int), e));
        }
    } else {
        proof {
            if p < s.len() {
                assert(s.skip(p as int)[0] == s[p as int]);
                assert(!text_lt(s[p as int].0, e.0));
                lemma_text_lt_total(s[p as int].0, e.0);
            } else {
                assert(s.skip(p as int) =~= Seq::<Keyed<V>>::empty());
            }
        }
        sorted.insert(p, (key, value));
        proof {
            assert(keyed_view(sorted@) =~= s.take(p as int) + insert_entry(s.skip(p as int), e));
        }
    }
}

/// A map from text keys to values: its entries are in strictly ascending
/// key order, so every key occurs once.
#[derive(Debug)]
pub struct TextMap<V> {
    entries: Vec<(String, V)>,
}

impl<V> View for TextMap<V> {
    type V = Seq<Keyed<V>>;

    /// The entries in ascending key order, keys taken by content.
    closed spec fn view(&self) -> Seq<Keyed<V>> {
        keyed_view(self.entries@)
    }
}

impl<V> TextMap<V> {
    #[verifier::type_invariant]
    spec fn wf(self) -> bool {
        keys_ascending(keyed_view(self.entries@))
    }

    /// The empty map.
    pub fn new() -> (r: Self)
        ensures
            r@ == Seq::<Keyed<V>>::empty(),
    {
        let r = TextMap { entries: Vec::new() };
        assert(keyed_view(r.entries@) =~= Seq::<Keyed<V>>::empty());
        r
    }

    /// Sets `key` to `value`, replacing the value of an equal key.
    pub fn insert(&mut self, key: String, value: V)
        ensures
            final(self)@ == insert_entry(old(self)@, (key@, value)),
            keys_ascending(final(self)@),
    {
        proof {
            use_type_invariant(&*self);
            lemma_insert_entry_ascending(self@, (key@, value));
        }
        let mut entries: Vec<(String, V)> = Vec::new();
        assert(keyed_view(entries@) =~= Seq::<Keyed<V>>::empty());
        std::mem::swap(&mut entries, &mut self.entries);
        insert_keyed(&mut entries, key, value);
        self.entries = entries;
    }

    /// The map of the pairs, inserted in order: of a repeated key the
    /// last value counts.
    pub fn from_pairs(pairs: Vec<(String, V)>) -> (r: Self)
        ensures
            r@ == sort_entries(keyed_view(pairs@)),
            keys_ascending(r@),
    {
        let ghost all = keyed_view(pairs@);
        let mut map = TextMap::new();
        for p in it: pairs
            invariant
                it.seq() == pairs@,
                all == keyed_view(pairs@),
                map@ == sort_entries(all.take(it.index() as int)),
        {
            let ghost k = it.index() as int;
            let (key, value) = p;
            map.insert(key, value);
            proof {
                let t = all.take(k + 1);
                assert(t.drop_last() =~= all.take(k));
                assert(t.last() == all[k]);
            }
        }
        assert(all.take(all.len() as int) =~= all);
        proof {
            lemma_sort_entries(all);
        }
        map
    }

    /// The entries, in ascending key order, each key once.
    pub fn entries(&self) -> (r: &Vec<(String, V)>)
        ensures
            keyed_view(r@) == self@,
            keys_ascending(self@),
    {
        proof {
            use_type_invariant(self);
        }
        &self.entries
    }

    /// Number of entries.
    pub fn len(&self) -> (r: usize)
        ensures
            r == self@.len(),
    {
        self.entries.len()
    }
}

impl<V: Clone> Clone for TextMap<V> {
    /// The same keys, in the same order, each value cloned.
    fn clone(&self) -> (r: Self)
        ensures
            r@.len() == self@.len(),
            forall|i: int| 0 <= i < self@.len() ==> (#[trigger] r@[i]).0 == self@[i].0,
    {
        proof {
            use_type_invariant(self);
        }
        let source = &self.entries;
        let mut entries: Vec<(String, V)> = Vec::new();
        let mut i: usize = 0;
        while i < source.len()
            invariant
                i <= source@.len(),
                entries@.len() == i,
                forall|j: int| 0 <= j < i ==> (#[trigger] entries@[j]).0@ == source@[j].0@,
            decreases source@.len() - i,
        {
            let key = source[i].0.clone();
            let value = source[i].1.clone();
            entries.push((key, value));
            i = i + 1;
        }
        proof {
            let a = keyed_view(entries@);
            let b = keyed_view(source@);
            assert forall|x: int, y: int| 0 <= x < y < a.len() implies text_lt(
                #[trigger] a[x].0,
                #[trigger] a[y].0,
            ) by {
                assert(a[x].0 == b[x].0 && a[y].0 == b[y].0);
            }
        }
        TextMap { entries }
    }
}

} // verus!
