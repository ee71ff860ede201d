//! Theory of key/value association sequences.
//!
//! Baggage maps, carrier maps, span tags and log fields are all finite
//! mappings from text keys to values.  This module gives them a common
//! mathematical model: a sequence of `(key, value)` pairs with unique keys,
//! looked up by first match, updated in place and merged parent-over-child.
use vstd::prelude::*;

verus! {

/// Key lookup: the value of the first pair whose key matches.
pub open spec fn kv_get<V>(s: Seq<(Seq<char>, V)>, key: Seq<char>) -> Option<V>
    decreases s.len(),
{
    if s.len() == 0 {
        None
    } else if s[0].0 == key {
        Some(s[0].1)
    } else {
        kv_get(s.drop_first(), key)
    }
}

/// Whether some pair carries the key.
pub open spec fn kv_has<V>(s: Seq<(Seq<char>, V)>, key: Seq<char>) -> bool {
    kv_get(s, key) is Some
}

/// Insert or update: an existing key keeps its position and gets the new
/// value, a fresh key is appended at the end.
pub open spec fn kv_set<V>(s: Seq<(Seq<char>, V)>, key: Seq<char>, value: V) -> Seq<
    (Seq<char>, V),
>
    decreases s.len(),
{
    if s.len() == 0 {
        seq![(key, value)]
    } else if s[0].0 == key {
        seq![(key, value)] + s.drop_first()
    } else {
        seq![s[0]] + kv_set(s.drop_first(), key, value)
    }
}

/// Merge: every pair of `parent` is set on `child`, in `parent`'s order,
/// so parent entries overwrite child entries with the same key.
pub open spec fn kv_merge<V>(
    child: Seq<(Seq<char>, V)>,
    parent: Seq<(Seq<char>, V)>,
) -> Seq<(Seq<char>, V)>
    decreases parent.len(),
{
    if parent.len() == 0 {
        child
    } else {
        kv_merge(kv_set(child, parent[0].0, parent[0].1), parent.drop_first())
    }
}

/// No two pairs carry the same key.
pub open spec fn kv_unique<V>(s: Seq<(Seq<char>, V)>) -> bool {
    forall|i: int, j: int| 0 <= i < j < s.len() ==> s[i].0 != s[j].0
}

/// Lookup after an update: the updated key maps to the new value and every
/// other key is untouched.
pub proof fn lemma_kv_set_get<V>(s: Seq<(Seq<char>, V)>, key: Seq<char>, value: V)
    ensures
        kv_get(kv_set(s, key, value), key) == Some(value),
        forall|k2: Seq<char>|
            k2 != key ==> #[trigger] kv_get(kv_set(s, key, value), k2) == kv_get(s, k2),
    decreases s.len(),
{
    let t = kv_set(s, key, value);
    if s.len() == 0 {
        assert(t.drop_first() =~= Seq::<(Seq<char>, V)>::empty());
        assert forall|k2: Seq<char>| k2 != key implies #[trigger] kv_get(t, k2) == kv_get(
            s,
            k2,
        ) by {
            assert(kv_get(t, k2) == kv_get(t.drop_first(), k2));
        }
    } else if s[0].0 == key {
        assert(t.drop_first() =~= s.drop_first());
    } else {
        lemma_kv_set_get(s.drop_first(), key, value);
        assert(t.drop_first() =~= kv_set(s.drop_first(), key, value));
        assert(t[0] == s[0]);
        assert(kv_get(t, key) == kv_get(t.drop_first(), key));
        assert forall|k2: Seq<char>| k2 != key implies #[trigger] kv_get(t, k2) == kv_get(
            s,
            k2,
        ) by {
            if k2 == s[0].0 {
            } else {
                assert(kv_get(t, k2) == kv_get(t.drop_first(), k2));
                assert(kv_get(s, k2) == kv_get(s.drop_first(), k2));
            }
        }
    }
}

/// An update keeps keys unique.
pub proof fn lemma_kv_set_unique<V>(s: Seq<(Seq<char>, V)>, key: Seq<char>, value: V)
    requires
        kv_unique(s),
    ensures
        kv_unique(kv_set(s, key, value)),
    decreases s.len(),
{
    let t = kv_set(s, key, value);
    if s.len() == 0 {
    } else if s[0].0 == key {
        assert(t.drop_first() =~= s.drop_first());
        assert forall|i: int, j: int| 0 <= i < j < t.len() implies t[i].0 != t[j].0 by {
            if i == 0 {
                assert(t[j] == s[j]);
                assert(s[0].0 != s[j].0);
            } else {
                assert(t[i] == s[i] && t[j] == s[j]);
            }
        }
    } else {
        assert(kv_unique(s.drop_first()));
        lemma_kv_set_unique(s.drop_first(), key, value);
        lemma_kv_set_keys(s.drop_first(), key, value);
        let rest = kv_set(s.drop_first(), key, value);
        assert(t.drop_first() =~= rest);
        assert forall|i: int, j: int| 0 <= i < j < t.len() implies t[i].0 != t[j].0 by {
            if i == 0 {
                assert(t[j] == rest[j - 1]);
                lemma_kv_index_has(rest, j - 1);
                assert(kv_has(rest, t[j].0));
                if t[j].0 == s[0].0 {
                    assert(kv_has(s.drop_first(), s[0].0) || s[0].0 == key);
                    if kv_has(s.drop_first(), s[0].0) {
                        lemma_kv_has_index(s.drop_first(), s[0].0);
                        assert(false);
                    }
                }
            } else {
                assert(t[i] == rest[i - 1] && t[j] == rest[j - 1]);
            }
        }
    }
}

/// The keys after an update are the old keys plus the updated one.
pub proof fn lemma_kv_set_keys<V>(s: Seq<(Seq<char>, V)>, key: Seq<char>, value: V)
    ensures
        forall|k2: Seq<char>|
            #[trigger] kv_has(kv_set(s, key, value), k2) <==> (k2 == key || kv_has(s, k2)),
{
    lemma_kv_set_get(s, key, value);
    assert forall|k2: Seq<char>| #[trigger]
        kv_has(kv_set(s, key, value), k2) <==> (k2 == key || kv_has(s, k2)) by {
        if k2 != key {
            assert(kv_get(kv_set(s, key, value), k2) == kv_get(s, k2));
        }
    }
}

/// A present key is carried by some pair.
pub proof fn lemma_kv_has_index<V>(s: Seq<(Seq<char>, V)>, key: Seq<char>)
    requires
        kv_has(s, key),
    ensures
        exists|i: int| 0 <= i < s.len() && s[i].0 == key,
    decreases s.len(),
{
    if s.len() == 0 {
    } else if s[0].0 == key {
        assert(s[0].0 == key);
    } else {
        lemma_kv_has_index(s.drop_first(), key);
        let i = choose|i: int| 0 <= i < s.drop_first().len() && s.drop_first()[i].0 == key;
        assert(s[i + 1].0 == key);
    }
}

/// A key carried by some pair is present.
pub proof fn lemma_kv_index_has<V>(s: Seq<(Seq<char>, V)>, i: int)
    requires
        0 <= i < s.len(),
    ensures
        kv_has(s, s[i].0),
    decreases s.len(),
{
    if i == 0 {
    } else if s[0].0 == s[i].0 {
    } else {
        lemma_kv_index_has(s.drop_first(), i - 1);
        assert(s.drop_first()[i - 1] == s[i]);
    }
}

/// With unique keys, lookup returns the value stored beside the key.
pub proof fn lemma_kv_get_at_index<V>(s: Seq<(Seq<char>, V)>, i: int)
    requires
        kv_unique(s),
        0 <= i < s.len(),
    ensures
        kv_get(s, s[i].0) == Some(s[i].1),
    decreases s.len(),
{
    if i == 0 {
    } else {
        assert(s[0].0 != s[i].0);
        assert(kv_unique(s.drop_first()));
        lemma_kv_get_at_index(s.drop_first(), i - 1);
        assert(s.drop_first()[i - 1] == s[i]);
    }
}

/// Skipping pairs whose keys do not match leaves the lookup unchanged.
pub proof fn lemma_kv_get_skip<V>(s: Seq<(Seq<char>, V)>, key: Seq<char>, i: int)
    requires
        0 <= i <= s.len(),
        forall|j: int| 0 <= j < i ==> s[j].0 != key,
    ensures
        kv_get(s, key) == kv_get(s.skip(i), key),
    decreases i,
{
    if i == 0 {
        assert(s.skip(0) =~= s);
    } else {
        lemma_kv_get_skip(s, key, i - 1);
        let t = s.skip(i - 1);
        assert(t[0] == s[i - 1]);
        assert(t.drop_first() =~= s.skip(i));
        assert(kv_get(t, key) == kv_get(t.drop_first(), key));
    }
}

/// Merging lets the parent win: a key present in a unique-keyed parent maps
/// to the parent's value in the merge.
pub proof fn lemma_kv_merge_parent_wins<V>(
    child: Seq<(Seq<char>, V)>,
    parent: Seq<(Seq<char>, V)>,
    key: Seq<char>,
)
    requires
        kv_unique(parent),
        kv_has(parent, key),
    ensures
        kv_get(kv_merge(child, parent), key) == kv_get(parent, key),
    decreases parent.len(),
{
    let updated = kv_set(child, parent[0].0, parent[0].1);
    lemma_kv_set_get(child, parent[0].0, parent[0].1);
    if parent[0].0 == key {
        if kv_has(parent.drop_first(), key) {
            lemma_kv_has_index(parent.drop_first(), key);
            let i = choose|i: int|
                0 <= i < parent.drop_first().len() && parent.drop_first()[i].0 == key;
            assert(parent[i + 1].0 == key);
            assert(false);
        }
        lemma_kv_merge_absent_key(updated, parent.drop_first(), key);
    } else {
        assert(kv_unique(parent.drop_first()));
        assert(kv_get(parent, key) == kv_get(parent.drop_first(), key));
        lemma_kv_merge_parent_wins(updated, parent.drop_first(), key);
    }
}

/// Merging keeps child entries whose keys the parent does not carry.
pub proof fn lemma_kv_merge_absent_key<V>(
    child: Seq<(Seq<char>, V)>,
    parent: Seq<(Seq<char>, V)>,
    key: Seq<char>,
)
    requires
        !kv_has(parent, key),
    ensures
        kv_get(kv_merge(child, parent), key) == kv_get(child, key),
    decreases parent.len(),
{
    if parent.len() == 0 {
    } else {
        let updated = kv_set(child, parent[0].0, parent[0].1);
        assert(parent[0].0 != key);
        lemma_kv_set_get(child, parent[0].0, parent[0].1);
        lemma_kv_merge_absent_key(updated, parent.drop_first(), key);
    }
}

/// Lookup returns the value of the first pair carrying the key.
pub proof fn lemma_kv_get_first_match<V>(s: Seq<(Seq<char>, V)>, i: int)
    requires
        0 <= i < s.len(),
        forall|j: int| 0 <= j < i ==> s[j].0 != s[i].0,
    ensures
        kv_get(s, s[i].0) == Some(s[i].1),
{
    lemma_kv_get_skip(s, s[i].0, i);
    let t = s.skip(i);
    assert(t[0] == s[i]);
}

/// When no pair carries the key, the lookup misses.
pub proof fn lemma_kv_get_none<V>(s: Seq<(Seq<char>, V)>, key: Seq<char>)
    requires
        forall|i: int| 0 <= i < s.len() ==> s[i].0 != key,
    ensures
        kv_get(s, key) is None,
{
    lemma_kv_get_skip(s, key, s.len() as int);
    assert(s.skip(s.len() as int) =~= Seq::<(Seq<char>, V)>::empty());
}

/// Updating the first pair that carries the key is the same as `kv_set`.
pub proof fn lemma_kv_set_at_first_match<V>(s: Seq<(Seq<char>, V)>, i: int, value: V)
    requires
        0 <= i < s.len(),
        forall|j: int| 0 <= j < i ==> s[j].0 != s[i].0,
    ensures
        kv_set(s, s[i].0, value) =~= s.update(i, (s[i].0, value)),
    decreases i,
{
    if i == 0 {
        assert(kv_set(s, s[0].0, value) =~= s.update(0, (s[0].0, value)));
    } else {
        lemma_kv_set_at_first_match(s.drop_first(), i - 1, value);
        assert(s.drop_first()[i - 1] == s[i]);
        assert(s.drop_first().update(i - 1, (s[i].0, value)) =~= s.update(i, (s[i].0, value)).drop_first());
        assert(kv_set(s, s[i].0, value) =~= seq![s[0]] + kv_set(s.drop_first(), s[i].0, value));
    }
}

/// Setting an absent key appends the pair at the end.
pub proof fn lemma_kv_set_absent_appends<V>(s: Seq<(Seq<char>, V)>, key: Seq<char>, value: V)
    requires
        forall|i: int| 0 <= i < s.len() ==> s[i].0 != key,
    ensures
        kv_set(s, key, value) =~= s.push((key, value)),
    decreases s.len(),
{
    if s.len() == 0 {
    } else {
        lemma_kv_set_absent_appends(s.drop_first(), key, value);
        assert(kv_set(s, key, value) =~= seq![s[0]] + kv_set(s.drop_first(), key, value));
        assert(seq![s[0]] + s.drop_first().push((key, value)) =~= s.push((key, value)));
    }
}

/// Merging one more parent pair sets it on the merge of the rest.
pub proof fn lemma_kv_merge_push<V>(
    child: Seq<(Seq<char>, V)>,
    parent: Seq<(Seq<char>, V)>,
    pair: (Seq<char>, V),
)
    ensures
        kv_merge(child, parent.push(pair)) == kv_set(kv_merge(child, parent), pair.0, pair.1),
    decreases parent.len(),
{
    if parent.len() == 0 {
        let p = parent.push(pair);
        assert(p[0] == pair);
        assert(p.drop_first() =~= Seq::<(Seq<char>, V)>::empty());
        assert(kv_merge(child, parent.push(pair)) == kv_merge(
            kv_set(child, pair.0, pair.1),
            Seq::<(Seq<char>, V)>::empty(),
        ));
    } else {
        let p = parent.push(pair);
        assert(p[0] == parent[0]);
        assert(p.drop_first() =~= parent.drop_first().push(pair));
        lemma_kv_merge_push(kv_set(child, parent[0].0, parent[0].1), parent.drop_first(), pair);
    }
}

} // verus!
