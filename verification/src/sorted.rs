//! Executable association vectors over `String` keys.
//!
//! Two flavours back the crate's containers: insertion-ordered vectors
//! (carrier maps, baggage) whose update semantics is exactly `kv_set`, and
//! key-sorted vectors (span tags, log fields) that keep their pairs in strict
//! lexicographic key order so serialization is deterministic.
use vstd::prelude::*;
use vstd::string::*;

use crate::kv::{
    kv_get, kv_has, kv_set, kv_unique, lemma_kv_get_at_index, lemma_kv_get_none,
    lemma_kv_has_index, lemma_kv_index_has, lemma_kv_set_absent_appends,
    lemma_kv_set_at_first_match, lemma_kv_set_get,
};
use crate::text::{lemma_lex_lt_asym, lemma_lex_lt_trans, lex_lt, str_compare, KeyCmp};

verus! {

/// The mathematical contents of an association vector.
pub open spec fn entries_view<V>(s: Seq<(String, V)>) -> Seq<(Seq<char>, V)> {
    s.map_values(|p: (String, V)| (p.0@, p.1))
}

/// Pairs stand in strictly increasing key order.
pub open spec fn sorted_by_key<V>(s: Seq<(Seq<char>, V)>) -> bool {
    forall|i: int, j: int| 0 <= i < j < s.len() ==> lex_lt(s[i].0, s[j].0)
}

/// Strictly sorted keys are unique.
pub proof fn lemma_sorted_unique<V>(s: Seq<(Seq<char>, V)>)
    requires
        sorted_by_key(s),
    ensures
        kv_unique(s),
{
    assert forall|i: int, j: int| 0 <= i < j < s.len() implies s[i].0 != s[j].0 by {
        lemma_lex_lt_asym(s[i].0, s[j].0);
    }
}

/// The index of the first pair carrying the key, if any.
pub fn entry_find<V>(entries: &Vec<(String, V)>, key: &str) -> (r: Option<usize>)
    ensures
        match r {
            Some(i) => {
                &&& i < entries@.len()
                &&& entries@[i as int].0@ == key@
                &&& forall|j: int| 0 <= j < i ==> entries@[j].0@ != key@
            },
            None => forall|j: int| 0 <= j < entries@.len() ==> entries@[j].0@ != key@,
        },
{
    let n = entries.len();
    let mut i: usize = 0;
    while i < n
        invariant
            0 <= i <= n,
            n == entries@.len(),
            forall|j: int| 0 <= j < i ==> entries@[j].0@ != key@,
        decreases n - i,
    {
        let c = str_compare(entries[i].0.as_str(), key);
        match c {
            KeyCmp::Equal => {
                return Some(i);
            },
            _ => {
                proof {
                    if c is Less {
                        lemma_lex_lt_asym(entries@[i as int].0@, key@);
                    } else {
                        lemma_lex_lt_asym(key@, entries@[i as int].0@);
                    }
                }
            },
        }
        i += 1;
    }
    None
}

/// Insert or update a pair, keeping the vector sorted by key: the updated
/// key maps to the new value, every other key is untouched, and strict key
/// order is preserved.
#[verifier::loop_isolation(false)]
pub fn entry_put_sorted<V>(entries: &mut Vec<(String, V)>, key: &str, value: V)
    requires
        sorted_by_key(entries_view(old(entries)@)),
    ensures
        sorted_by_key(entries_view(final(entries)@)),
        kv_get(entries_view(final(entries)@), key@) == Some(value),
        forall|k2: Seq<char>|
            k2 != key@ ==> #[trigger] kv_get(entries_view(final(entries)@), k2) == kv_get(
                entries_view(old(entries)@),
                k2,
            ),
{
    let ghost oldv = entries_view(entries@);
    proof {
        lemma_sorted_unique(oldv);
    }
    let n = entries.len();
    let mut i: usize = 0;
    while i < n
        invariant
            0 <= i <= n,
            n == entries@.len(),
            entries_view(entries@) == oldv,
            sorted_by_key(oldv),
            kv_unique(oldv),
            forall|j: int| 0 <= j < i ==> lex_lt(#[trigger] oldv[j].0, key@),
        decreases n - i,
    {
        let c = str_compare(entries[i].0.as_str(), key);
        match c {
            KeyCmp::Less => {
                i += 1;
            },
            KeyCmp::Equal => {
                let slot = vstd::std_specs::vec::vec_index_mut(entries, i);
                slot.1 = value;
                proof {
                    let newv = entries_view(entries@);
                    assert(newv =~= oldv.update(i as int, (oldv[i as int].0, value)));
                    assert forall|j: int| 0 <= j < i implies oldv[j].0 != key@ by {
                        lemma_lex_lt_asym(oldv[j].0, key@);
                    }
                    lemma_kv_set_at_first_match(oldv, i as int, value);
                    lemma_kv_set_get(oldv, key@, value);
                    assert(kv_set(oldv, key@, value) == newv);
                    assert forall|j1: int, j2: int| 0 <= j1 < j2 < newv.len() implies lex_lt(
                        newv[j1].0,
                        newv[j2].0,
                    ) by {
                        assert(newv[j1].0 == oldv[j1].0 && newv[j2].0 == oldv[j2].0);
                    }
                }
                return ;
            },
            KeyCmp::Greater => {
                entries.insert(i, (String::from_str(key), value));
                proof {
                    let newv = entries_view(entries@);
                    assert(newv =~= oldv.insert(i as int, (key@, value)));
                    lemma_put_sorted_insert(oldv, i as int, key@, value, newv);
                }
                return ;
            },
        }
    }
    entries.push((String::from_str(key), value));
    proof {
        let newv = entries_view(entries@);
        assert(newv =~= oldv.insert(oldv.len() as int, (key@, value)));
        lemma_put_sorted_insert(oldv, oldv.len() as int, key@, value, newv);
    }
}

/// Inserting a fresh key at its ordered position keeps the vector sorted
/// and changes only that key's lookup.
proof fn lemma_put_sorted_insert<V>(
    oldv: Seq<(Seq<char>, V)>,
    i: int,
    key: Seq<char>,
    value: V,
    newv: Seq<(Seq<char>, V)>,
)
    requires
        sorted_by_key(oldv),
        kv_unique(oldv),
        0 <= i <= oldv.len(),
        forall|j: int| 0 <= j < i ==> lex_lt(#[trigger] oldv[j].0, key),
        i < oldv.len() ==> lex_lt(key, oldv[i].0),
        newv == oldv.insert(i, (key, value)),
    ensures
        sorted_by_key(newv),
        kv_get(newv, key) == Some(value),
        forall|k2: Seq<char>| k2 != key ==> #[trigger] kv_get(newv, k2) == kv_get(oldv, k2),
{
    assert forall|j1: int, j2: int| 0 <= j1 < j2 < newv.len() implies lex_lt(
        newv[j1].0,
        newv[j2].0,
    ) by {
        if j1 < i && j2 > i {
            assert(newv[j1] == oldv[j1] && newv[j2] == oldv[j2 - 1]);
            if j2 - 1 == i {
                if i < oldv.len() {
                    lemma_lex_lt_trans(oldv[j1].0, key, oldv[i].0);
                }
            }
        } else if j1 == i && j2 > i {
            assert(newv[j2] == oldv[j2 - 1]);
            if j2 - 1 > i {
                lemma_lex_lt_trans(key, oldv[i].0, oldv[j2 - 1].0);
            }
        } else if j2 == i {
            assert(newv[j1] == oldv[j1]);
        } else if j2 < i {
            assert(newv[j1] == oldv[j1] && newv[j2] == oldv[j2]);
        } else {
            assert(j1 > i && j2 > i);
            assert(newv[j1] == oldv[j1 - 1] && newv[j2] == oldv[j2 - 1]);
        }
    }
    lemma_sorted_unique(newv);
    lemma_kv_get_at_index(newv, i);
    assert forall|k2: Seq<char>| k2 != key implies #[trigger] kv_get(newv, k2) == kv_get(
        oldv,
        k2,
    ) by {
        if kv_has(oldv, k2) {
            lemma_kv_has_index(oldv, k2);
            let j = choose|j: int| 0 <= j < oldv.len() && oldv[j].0 == k2;
            lemma_kv_get_at_index(oldv, j);
            if j < i {
                assert(newv[j] == oldv[j]);
                lemma_kv_get_at_index(newv, j);
            } else {
                assert(newv[j + 1] == oldv[j]);
                lemma_kv_get_at_index(newv, j + 1);
            }
        } else {
            lemma_kv_has_index_converse(oldv, k2);
            assert forall|j: int| 0 <= j < newv.len() implies newv[j].0 != k2 by {
                if j < i {
                    assert(newv[j] == oldv[j]);
                    lemma_kv_index_has(oldv, j);
                } else if j > i {
                    assert(newv[j] == oldv[j - 1]);
                    lemma_kv_index_has(oldv, j - 1);
                }
            }
            lemma_kv_get_none(newv, k2);
        }
    }
}

/// A missing key is carried by no pair.
proof fn lemma_kv_has_index_converse<V>(s: Seq<(Seq<char>, V)>, key: Seq<char>)
    requires
        !kv_has(s, key),
    ensures
        forall|i: int| 0 <= i < s.len() ==> s[i].0 != key,
{
    assert forall|i: int| 0 <= i < s.len() implies s[i].0 != key by {
        lemma_kv_index_has(s, i);
    }
}

} // verus!
