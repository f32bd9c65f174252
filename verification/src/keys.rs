//! Verification key directory. Offline-first: callers feed in keys they
//! have pinned themselves, or a snapshot of the platform's directory.

use vstd::prelude::*;
use crate::clock::{parse_iso, rfc3339_millis};
use crate::errors::AuditorError;
use crate::text::{chars_of, debug_quote, debug_quoted, opt_view, own};
use crate::types::{RuntimeKeysResponse, VerificationKey, ED25519};

verus! {

#[derive(Clone, Debug)]
pub enum KeyLookupResult {
    Hit(VerificationKey),
    Miss(KeyMissReason),
}

#[derive(Clone, Copy, Debug, PartialEq, Eq, Structural)]
pub enum KeyMissReason {
    UnknownKeyId,
    OutsideValidityWindow,
    RevokedBeforeIssuance,
}

#[derive(Clone, Debug)]
pub struct KeyDirectorySnapshot {
    pub source: String,
    pub snapshot_id: Option<String>,
    pub issued_at: Option<String>,
    pub keys: Vec<VerificationKey>,
}

/// Keys indexed by id. Every id occurs once and every key is Ed25519.
#[derive(Debug)]
pub struct KeyDirectory {
    snapshot: KeyDirectorySnapshot,
}

// ---------------------------------------------------------------------
// Acceptance of a key set
// ---------------------------------------------------------------------

/// Key `i` repeats the id of an earlier key.
pub open spec fn repeats_earlier_id(keys: Seq<VerificationKey>, i: int) -> bool {
    exists|j: int| 0 <= j < i && #[trigger] keys[j].key_id@ == keys[i].key_id@
}

/// What is wrong with key `i`, if anything: a repeated id, or an
/// algorithm other than Ed25519.
pub open spec fn key_problem(keys: Seq<VerificationKey>, i: int) -> Option<Seq<char>> {
    if repeats_earlier_id(keys, i) {
        Some("duplicate keyId in key directory: "@ + keys[i].key_id@)
    } else if keys[i].algorithm@ != ED25519@ {
        Some(
            "key "@ + keys[i].key_id@ + " algorithm "@ + debug_quoted(keys[i].algorithm@)
                + " is not supported (only 'ed25519')"@,
        )
    } else {
        None
    }
}

/// The problem of the first faulty key among `keys[0..k]`.
pub open spec fn first_key_problem(keys: Seq<VerificationKey>, k: nat) -> Option<Seq<char>>
    decreases k,
{
    if k == 0 {
        None
    } else {
        match first_key_problem(keys, (k - 1) as nat) {
            Some(m) => Some(m),
            None => key_problem(keys, k - 1),
        }
    }
}

/// Every id occurs once and every key is Ed25519.
pub open spec fn keys_acceptable(keys: Seq<VerificationKey>) -> bool {
    forall|i: int| 0 <= i < keys.len() ==> #[trigger] key_problem(keys, i) is None
}

proof fn lemma_first_key_problem(keys: Seq<VerificationKey>, k: nat)
    requires
        k <= keys.len(),
    ensures
        first_key_problem(keys, k) is None <==> forall|i: int|
            0 <= i < k ==> #[trigger] key_problem(keys, i) is None,
    decreases k,
{
    if k > 0 {
        lemma_first_key_problem(keys, (k - 1) as nat);
    }
}

// ---------------------------------------------------------------------
// Lookup
// ---------------------------------------------------------------------

/// Index of the key with the given id.
pub open spec fn find_key(keys: Seq<VerificationKey>, key_id: Seq<char>, k: nat) -> Option<int>
    decreases k,
{
    if k == 0 {
        None
    } else {
        match find_key(keys, key_id, (k - 1) as nat) {
            Some(i) => Some(i),
            None => if keys[k - 1].key_id@ == key_id {
                Some(k - 1)
            } else {
                None
            },
        }
    }
}

/// A bound of a key's validity window that parses and is passed by `t`.
pub open spec fn passes_bound(bound: Option<Seq<char>>, t: i64, after: bool) -> bool {
    match bound {
        Some(b) => match rfc3339_millis(b) {
            Some(v) => if after {
                t > v
            } else {
                t < v
            },
            None => false,
        },
        None => false,
    }
}

/// The lookup verdict for a key id at an issuance instant: unknown id; an
/// unparseable instant or one before `notBefore` / after `notAfter`
/// (outside the window); one after `revokedAt` (revoked); else the key.
/// Bounds that do not parse are ignored.
pub open spec fn lookup_result(keys: Seq<VerificationKey>, key_id: Seq<char>, issued_at: Seq<char>) -> KeyLookupResult {
    match find_key(keys, key_id, keys.len()) {
        None => KeyLookupResult::Miss(KeyMissReason::UnknownKeyId),
        Some(i) => {
            let key = keys[i];
            match rfc3339_millis(issued_at) {
                None => KeyLookupResult::Miss(KeyMissReason::OutsideValidityWindow),
                Some(t) => if passes_bound(Some(key.not_before@), t, false) {
                    KeyLookupResult::Miss(KeyMissReason::OutsideValidityWindow)
                } else if passes_bound(opt_view(key.not_after), t, true) {
                    KeyLookupResult::Miss(KeyMissReason::OutsideValidityWindow)
                } else if passes_bound(opt_view(key.revoked_at), t, true) {
                    KeyLookupResult::Miss(KeyMissReason::RevokedBeforeIssuance)
                } else {
                    KeyLookupResult::Hit(key)
                },
            }
        },
    }
}

/// The lookup verdict for the key of the wanted id, bound by bound: an
/// instant that does not parse, or is before `notBefore` or after
/// `notAfter`, is outside the window; one after `revokedAt` is revoked;
/// otherwise the key. Bounds are inclusive; a bound that does not parse
/// constrains nothing.
pub open spec fn explicit_lookup(key: VerificationKey, issued_at: Seq<char>) -> KeyLookupResult {
    match rfc3339_millis(issued_at) {
        None => KeyLookupResult::Miss(KeyMissReason::OutsideValidityWindow),
        Some(t) => if (rfc3339_millis(key.not_before@) matches Some(nb) && t < nb) || (match key.not_after {
            Some(a) => rfc3339_millis(a@) matches Some(na) && t > na,
            None => false,
        }) {
            KeyLookupResult::Miss(KeyMissReason::OutsideValidityWindow)
        } else if match key.revoked_at {
            Some(v) => rfc3339_millis(v@) matches Some(rv) && t > rv,
            None => false,
        } {
            KeyLookupResult::Miss(KeyMissReason::RevokedBeforeIssuance)
        } else {
            KeyLookupResult::Hit(key)
        },
    }
}

proof fn lemma_find_key(keys: Seq<VerificationKey>, key_id: Seq<char>, k: nat)
    requires
        k <= keys.len(),
    ensures
        find_key(keys, key_id, k) matches Some(j) ==> 0 <= j < k && keys[j].key_id@ == key_id && forall|q: int|
            0 <= q < j ==> (#[trigger] keys[q]).key_id@ != key_id,
        find_key(keys, key_id, k) is None ==> forall|q: int|
            0 <= q < k ==> (#[trigger] keys[q]).key_id@ != key_id,
    decreases k,
{
    if k > 0 {
        lemma_find_key(keys, key_id, (k - 1) as nat);
    }
}

/// A lookup answers unknown-id when no key has the id; in a valid
/// directory (each id once) it otherwise decides on the one key of that id
/// by [`explicit_lookup`].
pub proof fn lemma_lookup_explicit(keys: Seq<VerificationKey>, key_id: Seq<char>, issued_at: Seq<char>)
    ensures
        (forall|i: int| 0 <= i < keys.len() ==> (#[trigger] keys[i]).key_id@ != key_id) ==> lookup_result(
            keys,
            key_id,
            issued_at,
        ) == KeyLookupResult::Miss(KeyMissReason::UnknownKeyId),
        keys_acceptable(keys) ==> forall|i: int|
            0 <= i < keys.len() && (#[trigger] keys[i]).key_id@ == key_id ==> lookup_result(
                keys,
                key_id,
                issued_at,
            ) == explicit_lookup(keys[i], issued_at),
{
    lemma_find_key(keys, key_id, keys.len());
    assert forall|i: int|
        keys_acceptable(keys) && 0 <= i < keys.len() && (#[trigger] keys[i]).key_id@ == key_id implies lookup_result(
        keys,
        key_id,
        issued_at,
    ) == explicit_lookup(keys[i], issued_at) by {
        match find_key(keys, key_id, keys.len()) {
            Some(j) => {
                if j < i {
                    assert(key_problem(keys, i) is None);
                    assert(repeats_earlier_id(keys, i));
                }
                assert(j == i);
            },
            None => {},
        }
    }
}

fn copy_opt(o: &Option<String>) -> (r: Option<String>)
    ensures
        r == *o,
{
    match o {
        Some(s) => Some(s.clone()),
        None => None,
    }
}

/// An exact copy of a key.
pub fn copy_key(k: &VerificationKey) -> (r: VerificationKey)
    ensures
        r == *k,
{
    VerificationKey {
        key_id: k.key_id.clone(),
        algorithm: k.algorithm.clone(),
        public_key: k.public_key.clone(),
        not_before: k.not_before.clone(),
        not_after: copy_opt(&k.not_after),
        revoked_at: copy_opt(&k.revoked_at),
        purpose: copy_opt(&k.purpose),
    }
}

fn bound_passed(bound: &Option<String>, t: i64, after: bool) -> (r: bool)
    ensures
        r == passes_bound(opt_view(*bound), t, after),
{
    match bound {
        Some(b) => match parse_iso(b.as_str()) {
            Some(v) => if after {
                t > v
            } else {
                t < v
            },
            None => false,
        },
        None => false,
    }
}

// ---------------------------------------------------------------------
// Ordering of ids
// ---------------------------------------------------------------------

/// Lexicographic order of texts by character (the byte order of their
/// UTF-8 encodings).
pub open spec fn text_lt(a: Seq<char>, b: Seq<char>) -> bool
    decreases a.len(),
{
    if a.len() == 0 {
        b.len() > 0
    } else if b.len() == 0 {
        false
    } else if a[0] != b[0] {
        a[0] < b[0]
    } else {
        text_lt(a.drop_first(), b.drop_first())
    }
}

pub proof fn lemma_text_lt_irreflexive(a: Seq<char>)
    ensures
        !text_lt(a, a),
    decreases a.len(),
{
    if a.len() > 0 {
        lemma_text_lt_irreflexive(a.drop_first());
    }
}

pub proof fn lemma_text_lt_transitive(a: Seq<char>, b: Seq<char>, c: Seq<char>)
    requires
        text_lt(a, b),
        text_lt(b, c),
    ensures
        text_lt(a, c),
    decreases a.len(),
{
    if a.len() > 0 && b.len() > 0 && c.len() > 0 && a[0] == b[0] && b[0] == c[0] {
        lemma_text_lt_transitive(a.drop_first(), b.drop_first(), c.drop_first());
    }
}

pub proof fn lemma_text_lt_total(a: Seq<char>, b: Seq<char>)
    requires
        a != b,
    ensures
        text_lt(a, b) || text_lt(b, a),
    decreases a.len(),
{
    if a.len() > 0 && b.len() > 0 && a[0] == b[0] {
        if a.drop_first() == b.drop_first() {
            assert(a =~= seq![a[0]] + a.drop_first());
            assert(b =~= seq![b[0]] + b.drop_first());
        }
        lemma_text_lt_total(a.drop_first(), b.drop_first());
    } else if a.len() == 0 && b.len() == 0 {
        assert(a =~= b);
    }
}

/// Lexicographic comparison of two texts by character.
pub fn text_less(a: &str, b: &str) -> (r: bool)
    ensures
        r == text_lt(a@, b@),
{
    let x = chars_of(a);
    let y = chars_of(b);
    let mut i: usize = 0;
    while i < x.len() && i < y.len() && x[i] == y[i]
        invariant
            i <= x@.len(),
            i <= y@.len(),
            x@.take(i as int) == y@.take(i as int),
        decreases x@.len() - i,
    {
        proof {
            assert(x@.take(i + 1) =~= x@.take(i as int).push(x@[i as int]));
            assert(y@.take(i + 1) =~= y@.take(i as int).push(y@[i as int]));
        }
        i = i + 1;
    }
    proof {
        lemma_text_lt_common_prefix(x@, y@, i as nat);
    }
    if i == x.len() {
        i < y.len()
    } else if i == y.len() {
        false
    } else {
        x[i] < y[i]
    }
}

proof fn lemma_text_lt_common_prefix(a: Seq<char>, b: Seq<char>, k: nat)
    requires
        k <= a.len(),
        k <= b.len(),
        a.take(k as int) == b.take(k as int),
    ensures
        text_lt(a, b) == text_lt(a.skip(k as int), b.skip(k as int)),
    decreases k,
{
    if k > 0 {
        assert(a[0] == a.take(k as int)[0]);
        assert(b[0] == b.take(k as int)[0]);
        assert(a.drop_first().take(k - 1) =~= a.take(k as int).drop_first());
        assert(b.drop_first().take(k - 1) =~= b.take(k as int).drop_first());
        lemma_text_lt_common_prefix(a.drop_first(), b.drop_first(), (k - 1) as nat);
        assert(a.drop_first().skip(k - 1) =~= a.skip(k as int));
        assert(b.drop_first().skip(k - 1) =~= b.skip(k as int));
    } else {
        assert(a.skip(0) =~= a);
        assert(b.skip(0) =~= b);
    }
}

/// The ids of the keys, as a set.
pub open spec fn key_id_set(keys: Seq<VerificationKey>) -> Set<Seq<char>> {
    Set::new(|id: Seq<char>| exists|i: int| 0 <= i < keys.len() && #[trigger] keys[i].key_id@ == id)
}

/// Texts in strictly ascending order.
pub open spec fn strictly_ascending(v: Seq<Seq<char>>) -> bool {
    forall|i: int, j: int| 0 <= i < j < v.len() ==> text_lt(#[trigger] v[i], #[trigger] v[j])
}

pub open spec fn texts_view(v: Seq<String>) -> Seq<Seq<char>> {
    v.map_values(|s: String| s@)
}

// ---------------------------------------------------------------------
// Directory
// ---------------------------------------------------------------------

impl Clone for KeyDirectory {
    /// An equal directory: the same snapshot, key for key.
    fn clone(&self) -> (r: Self)
        ensures
            r.keys() == self.keys(),
            r.snapshot_spec().source == self.snapshot_spec().source,
            r.snapshot_spec().snapshot_id == self.snapshot_spec().snapshot_id,
            r.snapshot_spec().issued_at == self.snapshot_spec().issued_at,
    {
        proof {
            use_type_invariant(self);
        }
        let source = &self.snapshot.keys;
        let mut keys: Vec<VerificationKey> = Vec::new();
        let mut i: usize = 0;
        while i < source.len()
            invariant
                i <= source@.len(),
                keys@ == source@.take(i as int),
            decreases source@.len() - i,
        {
            keys.push(copy_key(&source[i]));
            proof {
                assert(source@.take(i + 1) =~= source@.take(i as int).push(source@[i as int]));
            }
            i = i + 1;
        }
        assert(source@.take(source@.len() as int) =~= source@);
        KeyDirectory {
            snapshot: KeyDirectorySnapshot {
                source: self.snapshot.source.clone(),
                snapshot_id: copy_opt(&self.snapshot.snapshot_id),
                issued_at: copy_opt(&self.snapshot.issued_at),
                keys,
            },
        }
    }
}

impl KeyDirectory {
    #[verifier::type_invariant]
    spec fn wf(self) -> bool {
        keys_acceptable(self.snapshot.keys@)
    }

    /// The snapshot the directory was built from.
    pub closed spec fn snapshot_spec(self) -> KeyDirectorySnapshot {
        self.snapshot
    }

    /// The keys, in the snapshot's order.
    pub open spec fn keys(self) -> Seq<VerificationKey> {
        self.snapshot_spec().keys@
    }

    /// Construct from a snapshot. Refuses the first key whose id repeats
    /// an earlier one or whose algorithm is not Ed25519.
    pub fn from_snapshot(snapshot: KeyDirectorySnapshot) -> (r: Result<Self, AuditorError>)
        ensures
            match first_key_problem(snapshot.keys@, snapshot.keys@.len()) {
                Some(m) => r matches Err(e) && e.code == crate::errors::AuditorErrorCode::KeysMalformed
                    && e.message@ == m && e.reason is None && e.detail is None,
                None => r matches Ok(d) && d.snapshot_spec() == snapshot,
            },
    {
        let n = snapshot.keys.len();
        let mut i: usize = 0;
        while i < n
            invariant
                n == snapshot.keys@.len(),
                i <= n,
                first_key_problem(snapshot.keys@, i as nat) is None,
            decreases n - i,
        {
            let key = &snapshot.keys[i];
            let mut j: usize = 0;
            while j < i
                invariant
                    i < n == snapshot.keys@.len(),
                    j <= i,
                    *key == snapshot.keys@[i as int],
                    first_key_problem(snapshot.keys@, i as nat) is None,
                    forall|m: int| 0 <= m < j ==> snapshot.keys@[m].key_id@ != snapshot.keys@[i as int].key_id@,
                decreases i - j,
            {
                if snapshot.keys[j].key_id == key.key_id {
                    let mut message = own("duplicate keyId in key directory: ");
                    message.append(key.key_id.as_str());
                    proof {
                        assert(repeats_earlier_id(snapshot.keys@, i as int));
                        assert(first_key_problem(snapshot.keys@, (i + 1) as nat) == Some(message@));
                        lemma_first_problem_stable(snapshot.keys@, (i + 1) as nat, n as nat);
                    }
                    return Err(AuditorError::keys_malformed(message));
                }
                j = j + 1;
            }
            assert(!repeats_earlier_id(snapshot.keys@, i as int));
            if !crate::text::str_eq(key.algorithm.as_str(), ED25519) {
                let mut message = own("key ");
                message.append(key.key_id.as_str());
                message.append(" algorithm ");
                let q = debug_quote(key.algorithm.as_str());
                message.append(q.as_str());
                message.append(" is not supported (only 'ed25519')");
                proof {
                    lemma_first_problem_stable(snapshot.keys@, (i + 1) as nat, n as nat);
                }
                return Err(AuditorError::keys_malformed(message));
            }
            i = i + 1;
        }
        proof {
            lemma_first_key_problem(snapshot.keys@, n as nat);
        }
        Ok(KeyDirectory { snapshot })
    }

    /// Convenience: build from a list of locally pinned keys.
    pub fn from_local(keys: Vec<VerificationKey>) -> (r: Result<Self, AuditorError>)
        ensures
            match first_key_problem(keys@, keys@.len()) {
                Some(m) => r matches Err(e) && e.code == crate::errors::AuditorErrorCode::KeysMalformed
                    && e.message@ == m,
                None => r matches Ok(d) && d.keys() == keys@ && d.snapshot_spec().source@ == "local"@
                    && d.snapshot_spec().snapshot_id is None && d.snapshot_spec().issued_at is None,
            },
    {
        let snapshot = KeyDirectorySnapshot {
            source: own("local"),
            snapshot_id: None,
            issued_at: None,
            keys,
        };
        Self::from_snapshot(snapshot)
    }

    /// Build from a parsed `/v1/runtime-keys` envelope; an envelope with
    /// `ok: false` is refused.
    pub fn from_runtime_keys(parsed: RuntimeKeysResponse) -> (r: Result<Self, AuditorError>)
        ensures
            !parsed.ok ==> (r matches Err(e) && e.code == crate::errors::AuditorErrorCode::KeysMalformed
                && e.message@ == "runtime_keys envelope has ok=false"@),
            parsed.ok ==> match first_key_problem(parsed.data.keys@, parsed.data.keys@.len()) {
                Some(m) => r matches Err(e) && e.code == crate::errors::AuditorErrorCode::KeysMalformed
                    && e.message@ == m,
                None => r matches Ok(d) && d.keys() == parsed.data.keys@
                    && d.snapshot_spec().source@ == "platform"@ && d.snapshot_spec().snapshot_id
                    == parsed.data.snapshot_id && d.snapshot_spec().issued_at == Some(
                    parsed.data.issued_at,
                ),
            },
    {
        if !parsed.ok {
            return Err(AuditorError::keys_malformed(own("runtime_keys envelope has ok=false")));
        }
        let snapshot = KeyDirectorySnapshot {
            source: own("platform"),
            snapshot_id: parsed.data.snapshot_id,
            issued_at: Some(parsed.data.issued_at),
            keys: parsed.data.keys,
        };
        Self::from_snapshot(snapshot)
    }

    /// The snapshot the directory was built from.
    pub fn snapshot(&self) -> (r: &KeyDirectorySnapshot)
        ensures
            *r == self.snapshot_spec(),
    {
        &self.snapshot
    }

    /// The directory's keys are acceptable: every id occurs once and every
    /// key is Ed25519.
    pub fn keys_acceptable_holds(&self)
        ensures
            keys_acceptable(self.keys()),
    {
        proof {
            use_type_invariant(self);
        }
    }

    /// Number of keys.
    pub fn size(&self) -> (r: usize)
        ensures
            r == self.keys().len(),
    {
        self.snapshot.keys.len()
    }

    /// The key ids in ascending order.
    pub fn key_ids(&self) -> (r: Vec<String>)
        ensures
            strictly_ascending(texts_view(r@)),
            r@.len() == self.keys().len(),
            forall|i: int|
                0 <= i < self.keys().len() ==> texts_view(r@).contains(#[trigger] self.keys()[i].key_id@),
            texts_view(r@).to_set() == key_id_set(self.keys()),
    {
        proof {
            use_type_invariant(self);
        }
        let keys = &self.snapshot.keys;
        let n = keys.len();
        let mut out: Vec<String> = Vec::new();
        let mut i: usize = 0;
        while i < n
            invariant
                n == keys@.len(),
                keys@ == self.keys(),
                keys_acceptable(keys@),
                i <= n,
                out@.len() == i,
                strictly_ascending(texts_view(out@)),
                forall|m: int| 0 <= m < i ==> texts_view(out@).contains(#[trigger] keys@[m].key_id@),
                forall|m: int|
                    0 <= m < out@.len() ==> exists|q: int| 0 <= q < i && #[trigger] out@[m]@ == keys@[q].key_id@,
            decreases n - i,
        {
            let x = keys[i].key_id.clone();
            proof {
                assert(key_problem(keys@, i as int) is None);
                assert forall|m: int| 0 <= m < out@.len() implies out@[m]@ != x@ by {
                    let q = choose|q: int| 0 <= q < i && #[trigger] out@[m]@ == keys@[q].key_id@;
                    if out@[m]@ == x@ {
                        assert(repeats_earlier_id(keys@, i as int));
                    }
                }
            }
            let mut p: usize = 0;
            while p < out.len() && text_less(out[p].as_str(), x.as_str())
                invariant
                    p <= out@.len(),
                    forall|m: int| 0 <= m < p ==> text_lt(#[trigger] out@[m]@, x@),
                decreases out@.len() - p,
            {
                p = p + 1;
            }
            let ghost before = texts_view(out@);
            proof {
                if p < out@.len() {
                    lemma_text_lt_total(out@[p as int]@, x@);
                    assert(out@[p as int]@ != x@);
                    assert(text_lt(x@, before[p as int]));
                }
            }
            out.insert(p, x);
            proof {
                assert(texts_view(out@) =~= before.insert(p as int, x@));
                let v = texts_view(out@);
                assert forall|a: int, b: int| 0 <= a < b < v.len() implies text_lt(#[trigger] v[a], #[trigger] v[b]) by {
                    if b < p {
                        assert(v[a] == before[a] && v[b] == before[b]);
                    } else if b == p {
                        assert(v[a] == before[a]);
                    } else if a == p {
                        assert(v[b] == before[b - 1]);
                        if b - 1 > p {
                            lemma_text_lt_transitive(x@, before[p as int], before[b - 1]);
                        }
                    } else if a < p {
                        assert(v[a] == before[a] && v[b] == before[b - 1]);
                    } else {
                        assert(v[a] == before[a - 1] && v[b] == before[b - 1]);
                    }
                }
                assert forall|m: int| 0 <= m < i + 1 implies texts_view(out@).contains(#[trigger] keys@[m].key_id@) by {
                    if m == i {
                        assert(v[p as int] == x@);
                    } else {
                        let w = choose|w: int| 0 <= w < before.len() && before[w] == keys@[m].key_id@;
                        if w < p {
                            assert(v[w] == before[w]);
                        } else {
                            assert(v[w + 1] == before[w]);
                        }
                    }
                }
                assert forall|m: int| 0 <= m < out@.len() implies exists|q: int| 0 <= q < i + 1 && #[trigger] out@[m]@ == keys@[q].key_id@ by {
                    if m == p {
                        assert(out@[m]@ == keys@[i as int].key_id@);
                    } else if m < p {
                        assert(out@[m]@ == before[m]);
                    } else {
                        assert(out@[m]@ == before[m - 1]);
                    }
                }
            }
            i = i + 1;
        }
        proof {
            let v = texts_view(out@);
            assert forall|x: Seq<char>| v.to_set().contains(x) <==> key_id_set(keys@).contains(x) by {
                if v.contains(x) {
                    let m = choose|m: int| 0 <= m < v.len() && v[m] == x;
                    let q = choose|q: int| 0 <= q < n && #[trigger] out@[m]@ == keys@[q].key_id@;
                    assert(keys@[q].key_id@ == x);
                }
                if key_id_set(keys@).contains(x) {
                    let q = choose|q: int| 0 <= q < keys@.len() && #[trigger] keys@[q].key_id@ == x;
                    assert(v.contains(keys@[q].key_id@));
                }
            }
            assert(v.to_set() =~= key_id_set(keys@));
        }
        out
    }

    /// Look up a key by id at an issuance instant, applying the validity
    /// window and revocation checks.
    pub fn lookup(&self, key_id: &str, issued_at_iso: &str) -> (r: KeyLookupResult)
        ensures
            r == lookup_result(self.keys(), key_id@, issued_at_iso@),
            keys_acceptable(self.keys()),
            (forall|i: int| 0 <= i < self.keys().len() ==> (#[trigger] self.keys()[i]).key_id@ != key_id@)
                ==> r == KeyLookupResult::Miss(KeyMissReason::UnknownKeyId),
            forall|i: int|
                0 <= i < self.keys().len() && (#[trigger] self.keys()[i]).key_id@ == key_id@ ==> r
                    == explicit_lookup(self.keys()[i], issued_at_iso@),
    {
        let r = self.scan_lookup(key_id, issued_at_iso);
        proof {
            use_type_invariant(self);
            lemma_lookup_explicit(self.keys(), key_id@, issued_at_iso@);
        }
        r
    }

    fn scan_lookup(&self, key_id: &str, issued_at_iso: &str) -> (r: KeyLookupResult)
        ensures
            r == lookup_result(self.keys(), key_id@, issued_at_iso@),
    {
        let keys = &self.snapshot.keys;
        let n = keys.len();
        let mut i: usize = 0;
        while i < n
            invariant
                n == keys@.len(),
                keys@ == self.keys(),
                i <= n,
                find_key(keys@, key_id@, i as nat) is None,
            decreases n - i,
        {
            if crate::text::str_eq(keys[i].key_id.as_str(), key_id) {
                proof {
                    lemma_find_key_stable(keys@, key_id@, (i + 1) as nat, n as nat);
                }
                let key = copy_key(&keys[i]);
                let issued_at_ms = match parse_iso(issued_at_iso) {
                    Some(ms) => ms,
                    None => return KeyLookupResult::Miss(KeyMissReason::OutsideValidityWindow),
                };
                let nb = Some(key.not_before.clone());
                if bound_passed(&nb, issued_at_ms, false) {
                    return KeyLookupResult::Miss(KeyMissReason::OutsideValidityWindow);
                }
                if bound_passed(&key.not_after, issued_at_ms, true) {
                    return KeyLookupResult::Miss(KeyMissReason::OutsideValidityWindow);
                }
                if bound_passed(&key.revoked_at, issued_at_ms, true) {
                    return KeyLookupResult::Miss(KeyMissReason::RevokedBeforeIssuance);
                }
                return KeyLookupResult::Hit(key);
            }
            i = i + 1;
        }
        KeyLookupResult::Miss(KeyMissReason::UnknownKeyId)
    }
}

proof fn lemma_first_problem_stable(keys: Seq<VerificationKey>, j: nat, k: nat)
    requires
        j <= k,
        first_key_problem(keys, j) is Some || (j > 0 && first_key_problem(keys, (j - 1) as nat) is None
            && key_problem(keys, j - 1) is Some),
    ensures
        first_key_problem(keys, k) == first_key_problem(keys, j),
    decreases k - j,
{
    if j < k {
        lemma_first_problem_stable(keys, j, (k - 1) as nat);
    }
}

proof fn lemma_find_key_stable(keys: Seq<VerificationKey>, key_id: Seq<char>, j: nat, k: nat)
    requires
        j <= k,
        find_key(keys, key_id, j) is Some,
    ensures
        find_key(keys, key_id, k) == find_key(keys, key_id, j),
    decreases k - j,
{
    if j < k {
        lemma_find_key_stable(keys, key_id, j, (k - 1) as nat);
    }
}

} // verus!
