//! The recursive sort-key JSON encoding: object keys in lexicographic
//! order (a later duplicate key replaces an earlier one), array order
//! kept, compact separators.

use vstd::prelude::*;
use crate::canonical_json::{json_quote, json_string};
use crate::keys::{lemma_text_lt_irreflexive, lemma_text_lt_total, lemma_text_lt_transitive, text_less, text_lt};
use crate::text::own;

verus! {

/// A JSON value.
#[derive(Debug)]
pub enum JsonValue {
    Null,
    Bool(bool),
    /// A number, held as its JSON text.
    Number(String),
    Str(String),
    Array(Vec<JsonValue>),
    /// The members in the order they were given.
    Object(Vec<JsonMember>),
}

/// One `key: value` member of a JSON object.
#[derive(Debug)]
pub struct JsonMember {
    pub key: String,
    pub value: JsonValue,
}

/// A text key with a value.
pub type Keyed<V> = (Seq<char>, V);

/// A key and the canonical text of its value.
pub type Entry = Keyed<Seq<char>>;

/// Inserting into a key-ordered entry list: an equal key is replaced in
/// place, otherwise the entry goes before the first greater key.
pub open spec fn insert_entry<V>(sorted: Seq<Keyed<V>>, e: Keyed<V>) -> Seq<Keyed<V>>
    decreases sorted.len(),
{
    if sorted.len() == 0 {
        seq![e]
    } else if sorted[0].0 == e.0 {
        seq![e] + sorted.drop_first()
    } else if text_lt(e.0, sorted[0].0) {
        seq![e] + sorted
    } else {
        seq![sorted[0]] + insert_entry(sorted.drop_first(), e)
    }
}

/// The entries inserted one after another into an empty key-ordered list.
pub open spec fn sort_entries<V>(entries: Seq<Keyed<V>>) -> Seq<Keyed<V>>
    decreases entries.len(),
{
    if entries.len() == 0 {
        Seq::empty()
    } else {
        insert_entry(sort_entries(entries.drop_last()), entries.last())
    }
}

/// `"key":value`.
pub open spec fn entry_text(e: Entry) -> Seq<char> {
    json_string(e.0) + ":"@ + e.1
}

/// The entries' texts joined by `,`.
pub open spec fn entries_text(entries: Seq<Entry>) -> Seq<char>
    decreases entries.len(),
{
    if entries.len() == 0 {
        Seq::empty()
    } else if entries.len() == 1 {
        entry_text(entries[0])
    } else {
        entries_text(entries.drop_last()) + ","@ + entry_text(entries.last())
    }
}

/// The canonical text of a JSON value.
pub open spec fn canonical_text(v: JsonValue) -> Seq<char>
    decreases v, 0nat,
{
    match v {
        JsonValue::Null => "null"@,
        JsonValue::Bool(b) => if b {
            "true"@
        } else {
            "false"@
        },
        JsonValue::Number(n) => n@,
        JsonValue::Str(s) => json_string(s@),
        JsonValue::Array(items) => "["@ + items_text(items, items@.len()) + "]"@,
        JsonValue::Object(members) => "{"@ + entries_text(
            sort_entries(member_texts(members, members@.len())),
        ) + "}"@,
    }
}

/// The canonical texts of the first `k` items, joined by `,`.
pub open spec fn items_text(items: Vec<JsonValue>, k: nat) -> Seq<char>
    decreases items, k,
{
    if k == 0 || k > items@.len() {
        Seq::empty()
    } else if k == 1 {
        canonical_text(items@[0])
    } else {
        items_text(items, (k - 1) as nat) + ","@ + canonical_text(items@[k - 1])
    }
}

/// The first `k` members as keys with the canonical texts of their values.
pub open spec fn member_texts(members: Vec<JsonMember>, k: nat) -> Seq<Entry>
    decreases members, k,
{
    if k == 0 || k > members@.len() {
        Seq::empty()
    } else {
        member_texts(members, (k - 1) as nat).push(
            (members@[k - 1].key@, canonical_text(members@[k - 1].value)),
        )
    }
}

pub open spec fn pairs_view(v: Seq<(String, String)>) -> Seq<Entry> {
    v.map_values(|p: (String, String)| (p.0@, p.1@))
}

pub proof fn lemma_insert_entry_skip<V>(sorted: Seq<Keyed<V>>, e: Keyed<V>, p: int)
    requires
        0 <= p <= sorted.len(),
        forall|j: int| 0 <= j < p ==> text_lt(#[trigger] sorted[j].0, e.0),
    ensures
        insert_entry(sorted, e) == sorted.take(p) + insert_entry(sorted.skip(p), e),
    decreases p,
{
    if p == 0 {
        assert(sorted.skip(0) =~= sorted);
        assert(sorted.take(0) + insert_entry(sorted, e) =~= insert_entry(sorted, e));
    } else {
        lemma_text_lt_irreflexive(e.0);
        assert(text_lt(sorted[0].0, e.0));
        if text_lt(e.0, sorted[0].0) {
            lemma_text_lt_transitive(e.0, sorted[0].0, e.0);
        }
        let rest = sorted.drop_first();
        assert forall|j: int| 0 <= j < p - 1 implies text_lt(#[trigger] rest[j].0, e.0) by {
            assert(rest[j] == sorted[j + 1]);
        }
        lemma_insert_entry_skip(rest, e, p - 1);
        assert(rest.skip(p - 1) =~= sorted.skip(p));
        assert(seq![sorted[0]] + rest.take(p - 1) =~= sorted.take(p));
    }
}

/// Inserts `(key, text)` into a key-ordered list of entries.
fn insert_sorted(sorted: &mut Vec<(String, String)>, key: String, text: String)
    ensures
        pairs_view(final(sorted)@) == insert_entry(pairs_view(old(sorted)@), (key@, text@)),
{
    let ghost e: Entry = (key@, text@);
    let ghost s = pairs_view(sorted@);
    let mut p: usize = 0;
    while p < sorted.len() && text_less(sorted[p].0.as_str(), key.as_str())
        invariant
            p <= sorted@.len(),
            s == pairs_view(sorted@),
            e == (key@, text@),
            forall|j: int| 0 <= j < p ==> text_lt(#[trigger] s[j].0, e.0),
        decreases sorted@.len() - p,
    {
        p = p + 1;
    }
    proof {
        lemma_insert_entry_skip(s, e, p as int);
    }
    if p < sorted.len() && crate::text::str_eq(sorted[p].0.as_str(), key.as_str()) {
        proof {
            assert(s.skip(p as int)[0] == s[p as int]);
            assert(s.skip(p as int).drop_first() =~= s.skip(p as int + 1));
        }
        sorted.set(p, (key, text));
        proof {
            assert(pairs_view(sorted@) =~= s.take(p as int) + insert_entry(s.skip(p as int), e));
        }
    } else {
        proof {
            if p < s.len() {
                assert(s.skip(p as int)[0] == s[p as int]);
                assert(!text_lt(s[p as int].0, e.0));
                lemma_text_lt_total(s[p as int].0, e.0);
            } else {
                assert(s.skip(p as int) =~= Seq::<Entry>::empty());
            }
        }
        sorted.insert(p, (key, text));
        proof {
            assert(pairs_view(sorted@) =~= s.take(p as int) + insert_entry(s.skip(p as int), e));
        }
    }
}

fn push_entries(out: &mut String, entries: &Vec<(String, String)>)
    ensures
        final(out)@ == old(out)@ + entries_text(pairs_view(entries@)),
{
    let ghost all = pairs_view(entries@);
    let mut i: usize = 0;
    while i < entries.len()
        invariant
            i <= entries@.len(),
            all == pairs_view(entries@),
            out@ == old(out)@ + entries_text(all.take(i as int)),
        decreases entries@.len() - i,
    {
        if i > 0 {
            out.append(",");
        }
        let key = json_quote(entries[i].0.as_str());
        out.append(key.as_str());
        out.append(":");
        out.append(entries[i].1.as_str());
        proof {
            let t = all.take(i + 1);
            assert(t.drop_last() =~= all.take(i as int));
            assert(t.last() == all[i as int]);
        }
        i = i + 1;
    }
    assert(all.take(entries@.len() as int) =~= all);
}

/// The canonical sort-key JSON of a value: objects with their keys in
/// lexicographic order (of a repeated key the last value counts), arrays
/// in their order, no whitespace.
pub fn canonical_sort_keys(value: &JsonValue) -> (r: String)
    ensures
        r@ == canonical_text(*value),
    decreases value,
{
    match value {
        JsonValue::Null => own("null"),
        JsonValue::Bool(b) => if *b {
            own("true")
        } else {
            own("false")
        },
        JsonValue::Number(n) => n.clone(),
        JsonValue::Str(s) => json_quote(s.as_str()),
        JsonValue::Array(items) => {
            let mut out = own("[");
            let mut i: usize = 0;
            while i < items.len()
                invariant
                    i <= items@.len(),
                    *value == JsonValue::Array(*items),
                    out@ == "["@ + items_text(*items, i as nat),
                decreases items@.len() - i,
            {
                if i > 0 {
                    out.append(",");
                }
                proof {
                    vstd::std_specs::vec::axiom_vec_index_decreases(*items, i as int);
                    assert(decreases_to!(*value => (*value)->Array_0));
                    assert(decreases_to!(*value => items[i as int]));
                }
                let t = canonical_sort_keys(&items[i]);
                out.append(t.as_str());
                i = i + 1;
            }
            out.append("]");
            out
        },
        JsonValue::Object(members) => {
            let mut sorted: Vec<(String, String)> = Vec::new();
            let mut i: usize = 0;
            while i < members.len()
                invariant
                    i <= members@.len(),
                    *value == JsonValue::Object(*members),
                    pairs_view(sorted@) == sort_entries(member_texts(*members, i as nat)),
                decreases members@.len() - i,
            {
                proof {
                    vstd::std_specs::vec::axiom_vec_index_decreases(*members, i as int);
                    assert(decreases_to!(*value => (*value)->Object_0));
                    assert(decreases_to!(members[i as int] => members[i as int].value));
                    assert(decreases_to!(*value => members[i as int].value));
                }
                let t = canonical_sort_keys(&members[i].value);
                insert_sorted(&mut sorted, members[i].key.clone(), t);
                proof {
                    let m = member_texts(*members, (i + 1) as nat);
                    assert(m.drop_last() =~= member_texts(*members, i as nat));
                }
                i = i + 1;
            }
            let mut out = own("{");
            push_entries(&mut out, &sorted);
            out.append("}");
            out
        },
    }
}

// ---------------------------------------------------------------------
// Laws
// ---------------------------------------------------------------------

/// Keys in strictly ascending order (so no key repeats).
pub open spec fn keys_ascending<V>(s: Seq<Keyed<V>>) -> bool {
    forall|i: int, j: int| 0 <= i < j < s.len() ==> text_lt(#[trigger] s[i].0, #[trigger] s[j].0)
}

/// No two members share a key.
pub open spec fn distinct_keys(members: Seq<JsonMember>) -> bool {
    forall|i: int, j: int|
        0 <= i < j < members.len() ==> (#[trigger] members[i]).key@ != (#[trigger] members[j]).key@
}

/// A member as a key with the canonical text of its value.
pub open spec fn member_entry(m: JsonMember) -> Entry {
    (m.key@, canonical_text(m.value))
}

proof fn lemma_text_lt_asymmetric(a: Seq<char>, b: Seq<char>)
    requires
        text_lt(a, b),
    ensures
        !text_lt(b, a),
        a != b,
{
    lemma_text_lt_irreflexive(a);
    if text_lt(b, a) {
        lemma_text_lt_transitive(a, b, a);
    }
}

pub proof fn lemma_insert_entry_ascending<V>(sorted: Seq<Keyed<V>>, e: Keyed<V>)
    requires
        keys_ascending(sorted),
    ensures
        keys_ascending(insert_entry(sorted, e)),
        forall|x: Keyed<V>|
            #[trigger] insert_entry(sorted, e).contains(x) <==> (x == e || (sorted.contains(x) && x.0
                != e.0)),
        forall|i: int| 0 <= i < insert_entry(sorted, e).len() ==> (#[trigger] insert_entry(sorted, e)[i]
            == e || text_lt(sorted[0].0, insert_entry(sorted, e)[i].0) || insert_entry(sorted, e)[i]
            == sorted[0]),
    decreases sorted.len(),
{
    let r = insert_entry(sorted, e);
    if sorted.len() == 0 {
        assert forall|x: Keyed<V>| r.contains(x) <==> (x == e || (sorted.contains(x) && x.0 != e.0)) by {
            if r.contains(x) {
                let k = choose|k: int| 0 <= k < r.len() && r[k] == x;
                assert(k == 0);
            }
            if x == e {
                assert(r[0] == x);
            }
        }
        return;
    }
    let first = sorted[0];
    let rest = sorted.drop_first();
    assert forall|j: int| 0 <= j < rest.len() implies text_lt(first.0, #[trigger] rest[j].0) by {
        assert(rest[j] == sorted[j + 1]);
    }
    assert forall|i: int, j: int| 0 <= i < j < rest.len() implies text_lt(
        #[trigger] rest[i].0,
        #[trigger] rest[j].0,
    ) by {
        assert(rest[i] == sorted[i + 1]);
        assert(rest[j] == sorted[j + 1]);
    }
    assert(sorted =~= seq![first] + rest);
    if first.0 == e.0 {
        assert(r =~= seq![e] + rest);
        assert forall|i: int, j: int| 0 <= i < j < r.len() implies text_lt(#[trigger] r[i].0, #[trigger] r[j].0) by {
            assert(r[j] == rest[j - 1]);
            if i > 0 {
                assert(r[i] == rest[i - 1]);
            }
        }
        assert forall|x: Keyed<V>| r.contains(x) <==> (x == e || (sorted.contains(x) && x.0 != e.0)) by {
            if r.contains(x) && x != e {
                let k = choose|k: int| 0 <= k < r.len() && r[k] == x;
                assert(x == rest[k - 1]);
                assert(sorted[k] == x);
                lemma_text_lt_asymmetric(first.0, rest[k - 1].0);
            }
            if x == e {
                assert(r[0] == x);
            }
            if sorted.contains(x) && x.0 != e.0 {
                let k = choose|k: int| 0 <= k < sorted.len() && sorted[k] == x;
                assert(k != 0);
                assert(r[k] == x);
            }
        }
        assert forall|i: int| 0 <= i < r.len() implies (#[trigger] r[i] == e || text_lt(sorted[0].0, r[i].0)
            || r[i] == sorted[0]) by {
            if i > 0 {
                assert(r[i] == rest[i - 1]);
            }
        }
    } else if text_lt(e.0, first.0) {
        assert(r =~= seq![e] + sorted);
        assert forall|i: int, j: int| 0 <= i < j < r.len() implies text_lt(#[trigger] r[i].0, #[trigger] r[j].0) by {
            assert(r[j] == sorted[j - 1]);
            if i > 0 {
                assert(r[i] == sorted[i - 1]);
            } else if j > 1 {
                assert(text_lt(first.0, sorted[j - 1].0));
                lemma_text_lt_transitive(e.0, first.0, sorted[j - 1].0);
            }
        }
        assert forall|x: Keyed<V>| r.contains(x) <==> (x == e || (sorted.contains(x) && x.0 != e.0)) by {
            if r.contains(x) && x != e {
                let k = choose|k: int| 0 <= k < r.len() && r[k] == x;
                assert(x == sorted[k - 1]);
                if k > 1 {
                    lemma_text_lt_transitive(e.0, first.0, sorted[k - 1].0);
                }
                lemma_text_lt_asymmetric(e.0, sorted[k - 1].0);
            }
            if x == e {
                assert(r[0] == x);
            }
            if sorted.contains(x) && x.0 != e.0 {
                let k = choose|k: int| 0 <= k < sorted.len() && sorted[k] == x;
                assert(r[k + 1] == x);
            }
        }
        assert forall|i: int| 0 <= i < r.len() implies (#[trigger] r[i] == e || text_lt(sorted[0].0, r[i].0)
            || r[i] == sorted[0]) by {
            if i > 1 {
                assert(r[i] == sorted[i - 1]);
            }
        }
    } else {
        lemma_text_lt_total(first.0, e.0);
        lemma_insert_entry_ascending(rest, e);
        let t = insert_entry(rest, e);
        assert(r =~= seq![first] + t);
        assert forall|j: int| 0 <= j < t.len() implies text_lt(first.0, #[trigger] t[j].0) by {
            if t[j] != e && rest.len() > 0 && t[j] != rest[0] {
                lemma_text_lt_transitive(first.0, rest[0].0, t[j].0);
            }
            if t[j] != e && t[j] == rest[0] {
            }
            if t[j] != e && rest.len() == 0 {
                assert(t.len() == 1);
            }
        }
        assert forall|i: int, j: int| 0 <= i < j < r.len() implies text_lt(#[trigger] r[i].0, #[trigger] r[j].0) by {
            assert(r[j] == t[j - 1]);
            if i > 0 {
                assert(r[i] == t[i - 1]);
            }
        }
        assert forall|x: Keyed<V>| r.contains(x) <==> (x == e || (sorted.contains(x) && x.0 != e.0)) by {
            if r.contains(x) {
                let k = choose|k: int| 0 <= k < r.len() && r[k] == x;
                if k > 0 {
                    assert(t[k - 1] == x);
                    assert(t.contains(x));
                    if x != e {
                        assert(rest.contains(x) && x.0 != e.0);
                        let q = choose|q: int| 0 <= q < rest.len() && rest[q] == x;
                        assert(sorted[q + 1] == x);
                    }
                } else {
                    assert(x == first);
                }
            }
            if x == e {
                assert(t.contains(e));
                let q = choose|q: int| 0 <= q < t.len() && t[q] == e;
                assert(r[q + 1] == x);
            }
            if sorted.contains(x) && x.0 != e.0 {
                let k = choose|k: int| 0 <= k < sorted.len() && sorted[k] == x;
                if k == 0 {
                    assert(r[0] == x);
                } else {
                    assert(rest[k - 1] == x);
                    assert(rest.contains(x));
                    assert(t.contains(x));
                    let q = choose|q: int| 0 <= q < t.len() && t[q] == x;
                    assert(r[q + 1] == x);
                }
            }
        }
        assert forall|i: int| 0 <= i < r.len() implies (#[trigger] r[i] == e || text_lt(sorted[0].0, r[i].0)
            || r[i] == sorted[0]) by {
            if i > 0 {
                assert(r[i] == t[i - 1]);
            }
        }
    }
}

pub proof fn lemma_sort_entries<V>(entries: Seq<Keyed<V>>)
    ensures
        keys_ascending(sort_entries(entries)),
        (forall|i: int, j: int| 0 <= i < j < entries.len() ==> (#[trigger] entries[i]).0 != (#[trigger] entries[j]).0)
            ==> forall|x: Keyed<V>| sort_entries(entries).contains(x) <==> entries.contains(x),
    decreases entries.len(),
{
    if entries.len() > 0 {
        let init = entries.drop_last();
        let e = entries.last();
        lemma_sort_entries(init);
        lemma_insert_entry_ascending(sort_entries(init), e);
        if forall|i: int, j: int| 0 <= i < j < entries.len() ==> (#[trigger] entries[i]).0 != (#[trigger] entries[j]).0 {
            assert forall|i: int, j: int| 0 <= i < j < init.len() implies (#[trigger] init[i]).0 != (#[trigger] init[j]).0 by {
                assert(init[i] == entries[i]);
                assert(init[j] == entries[j]);
            }
            assert forall|x: Keyed<V>| sort_entries(entries).contains(x) <==> entries.contains(x) by {
                if init.contains(x) {
                    let k = choose|k: int| 0 <= k < init.len() && init[k] == x;
                    assert(entries[k] == x);
                    assert(entries[entries.len() - 1] == e);
                }
                if entries.contains(x) {
                    let k = choose|k: int| 0 <= k < entries.len() && entries[k] == x;
                    if k < entries.len() - 1 {
                        assert(init[k] == x);
                    }
                }
            }
        }
    }
}

proof fn lemma_ascending_unique<V>(a: Seq<Keyed<V>>, b: Seq<Keyed<V>>)
    requires
        keys_ascending(a),
        keys_ascending(b),
        forall|x: Keyed<V>| a.contains(x) <==> b.contains(x),
    ensures
        a == b,
    decreases a.len(),
{
    if a.len() == 0 {
        if b.len() > 0 {
            assert(b.contains(b[0]));
        }
        assert(a =~= b);
        return;
    }
    assert(a.contains(a[0]));
    let j = choose|j: int| 0 <= j < b.len() && b[j] == a[0];
    assert(b.contains(b[0]));
    let i = choose|i: int| 0 <= i < a.len() && a[i] == b[0];
    if i > 0 && j > 0 {
        lemma_text_lt_asymmetric(a[0].0, a[i].0);
    }
    assert(a[0] == b[0]);
    let ra = a.drop_first();
    let rb = b.drop_first();
    assert forall|p: int, q: int| 0 <= p < q < ra.len() implies text_lt(#[trigger] ra[p].0, #[trigger] ra[q].0) by {
        assert(ra[p] == a[p + 1]);
        assert(ra[q] == a[q + 1]);
    }
    assert forall|p: int, q: int| 0 <= p < q < rb.len() implies text_lt(#[trigger] rb[p].0, #[trigger] rb[q].0) by {
        assert(rb[p] == b[p + 1]);
        assert(rb[q] == b[q + 1]);
    }
    assert forall|x: Keyed<V>| ra.contains(x) <==> rb.contains(x) by {
        if ra.contains(x) {
            let k = choose|k: int| 0 <= k < ra.len() && ra[k] == x;
            assert(a[k + 1] == x);
            assert(a.contains(x));
            let m = choose|m: int| 0 <= m < b.len() && b[m] == x;
            lemma_text_lt_asymmetric(a[0].0, a[k + 1].0);
            assert(m != 0);
            assert(rb[m - 1] == x);
        }
        if rb.contains(x) {
            let k = choose|k: int| 0 <= k < rb.len() && rb[k] == x;
            assert(b[k + 1] == x);
            assert(b.contains(x));
            let m = choose|m: int| 0 <= m < a.len() && a[m] == x;
            lemma_text_lt_asymmetric(b[0].0, b[k + 1].0);
            assert(m != 0);
            assert(ra[m - 1] == x);
        }
    }
    lemma_ascending_unique(ra, rb);
    assert(a =~= seq![a[0]] + ra);
    assert(b =~= seq![b[0]] + rb);
}

proof fn lemma_member_texts(members: Vec<JsonMember>, k: nat)
    requires
        k <= members@.len(),
    ensures
        member_texts(members, k).len() == k,
        forall|i: int| 0 <= i < k ==> #[trigger] member_texts(members, k)[i] == member_entry(members@[i]),
    decreases k,
{
    if k > 0 {
        lemma_member_texts(members, (k - 1) as nat);
    }
}

/// Whatever the members, the canonical text of an object lists its keys in
/// strictly ascending order, each once.
pub proof fn lemma_object_keys_ascending(members: Vec<JsonMember>)
    ensures
        keys_ascending(sort_entries(member_texts(members, members@.len()))),
{
    lemma_sort_entries(member_texts(members, members@.len()));
}

/// Two objects with the same members, each without a repeated key, have
/// the same canonical text: the order of the members does not matter.
pub proof fn lemma_member_order_irrelevant(first: Vec<JsonMember>, second: Vec<JsonMember>)
    requires
        distinct_keys(first@),
        distinct_keys(second@),
        forall|m: JsonMember| first@.contains(m) <==> second@.contains(m),
    ensures
        canonical_text(JsonValue::Object(first)) == canonical_text(JsonValue::Object(second)),
{
    let e1 = member_texts(first, first@.len());
    let e2 = member_texts(second, second@.len());
    lemma_member_texts(first, first@.len());
    lemma_member_texts(second, second@.len());
    assert forall|i: int, j: int| 0 <= i < j < e1.len() implies (#[trigger] e1[i]).0 != (#[trigger] e1[j]).0 by {
        assert(first@[i].key@ != first@[j].key@);
    }
    assert forall|i: int, j: int| 0 <= i < j < e2.len() implies (#[trigger] e2[i]).0 != (#[trigger] e2[j]).0 by {
        assert(second@[i].key@ != second@[j].key@);
    }
    lemma_sort_entries(e1);
    lemma_sort_entries(e2);
    assert forall|x: Entry| e1.contains(x) <==> e2.contains(x) by {
        if e1.contains(x) {
            let k = choose|k: int| 0 <= k < e1.len() && e1[k] == x;
            assert(first@.contains(first@[k]));
            let m = choose|m: int| 0 <= m < second@.len() && second@[m] == first@[k];
            assert(e2[m] == x);
        }
        if e2.contains(x) {
            let k = choose|k: int| 0 <= k < e2.len() && e2[k] == x;
            assert(second@.contains(second@[k]));
            let m = choose|m: int| 0 <= m < first@.len() && first@[m] == second@[k];
            assert(e1[m] == x);
        }
    }
    assert forall|x: Entry| sort_entries(e1).contains(x) <==> sort_entries(e2).contains(x) by {
        assert(sort_entries(e1).contains(x) <==> e1.contains(x));
        assert(sort_entries(e2).contains(x) <==> e2.contains(x));
    }
    lemma_ascending_unique(sort_entries(e1), sort_entries(e2));
}

} // verus!
