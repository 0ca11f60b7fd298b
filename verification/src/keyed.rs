//! Sequences of records in which each record carries a key and no key occurs
//! twice: the model of the registries, which look records up by project key.
use vstd::prelude::*;

verus! {

/// No two positions of `s` carry the same key.
pub open spec fn unique_keys<T, K>(s: Seq<T>, key: spec_fn(T) -> K) -> bool {
    forall|i: int, j: int|
        0 <= i < s.len() && 0 <= j < s.len() && i != j ==> #[trigger] key(s[i]) != #[trigger] key(
            s[j],
        )
}

/// Some position of `s` carries key `k`.
pub open spec fn has_key<T, K>(s: Seq<T>, key: spec_fn(T) -> K, k: K) -> bool {
    exists|i: int| 0 <= i < s.len() && #[trigger] key(s[i]) == k
}

/// The record of `s` under key `k`, if any.
pub open spec fn lookup<T, K>(s: Seq<T>, key: spec_fn(T) -> K, k: K) -> Option<T> {
    if has_key(s, key, k) {
        Some(s[choose|i: int| 0 <= i < s.len() && #[trigger] key(s[i]) == k])
    } else {
        None
    }
}

/// With unique keys, the record found under the key of position `i` is `s[i]`.
pub proof fn lemma_lookup_index<T, K>(s: Seq<T>, key: spec_fn(T) -> K, i: int)
    requires
        unique_keys(s, key),
        0 <= i < s.len(),
    ensures
        lookup(s, key, key(s[i])) == Some(s[i]),
{
    assert(has_key(s, key, key(s[i])));
    let j = choose|j: int| 0 <= j < s.len() && #[trigger] key(s[j]) == key(s[i]);
    assert(j == i);
}

/// Appending a record with a fresh key keeps keys unique, finds the new record
/// under its key and leaves every other key's record unchanged.
pub proof fn lemma_push<T, K>(s: Seq<T>, key: spec_fn(T) -> K, x: T)
    requires
        unique_keys(s, key),
        !has_key(s, key, key(x)),
    ensures
        unique_keys(s.push(x), key),
        lookup(s.push(x), key, key(x)) == Some(x),
        forall|k: K| k != key(x) ==> #[trigger] lookup(s.push(x), key, k) == lookup(s, key, k),
{
    let t = s.push(x);
    assert forall|i: int, j: int|
        0 <= i < t.len() && 0 <= j < t.len() && i != j implies #[trigger] key(t[i]) != #[trigger] key(
            t[j],
        ) by {
        if i < s.len() && j < s.len() {
            assert(t[i] == s[i] && t[j] == s[j]);
        } else if i < s.len() {
            assert(t[i] == s[i]);
        } else {
            assert(t[j] == s[j]);
        }
    }
    lemma_lookup_index(t, key, s.len() as int);
    assert forall|k: K| k != key(x) implies #[trigger] lookup(t, key, k) == lookup(s, key, k) by {
        if has_key(s, key, k) {
            let i = choose|i: int| 0 <= i < s.len() && #[trigger] key(s[i]) == k;
            assert(t[i] == s[i]);
            lemma_lookup_index(s, key, i);
            lemma_lookup_index(t, key, i);
        } else {
            assert forall|i: int| 0 <= i < t.len() implies #[trigger] key(t[i]) != k by {
                if i < s.len() {
                    assert(t[i] == s[i]);
                }
            }
        }
    }
}

/// Replacing the record at position `i` by one with the same key keeps keys
/// unique, finds the new record under that key and leaves every other key's
/// record unchanged.
pub proof fn lemma_update<T, K>(s: Seq<T>, key: spec_fn(T) -> K, i: int, x: T)
    requires
        unique_keys(s, key),
        0 <= i < s.len(),
        key(x) == key(s[i]),
    ensures
        unique_keys(s.update(i, x), key),
        lookup(s.update(i, x), key, key(x)) == Some(x),
        forall|k: K| k != key(x) ==> #[trigger] lookup(s.update(i, x), key, k) == lookup(s, key, k),
{
    let t = s.update(i, x);
    assert forall|a: int, b: int|
        0 <= a < t.len() && 0 <= b < t.len() && a != b implies #[trigger] key(t[a]) != #[trigger] key(
            t[b],
        ) by {
        assert(key(t[a]) == key(s[a]));
        assert(key(t[b]) == key(s[b]));
    }
    lemma_lookup_index(t, key, i);
    assert forall|k: K| k != key(x) implies #[trigger] lookup(t, key, k) == lookup(s, key, k) by {
        if has_key(s, key, k) {
            let j = choose|j: int| 0 <= j < s.len() && #[trigger] key(s[j]) == k;
            assert(j != i);
            assert(t[j] == s[j]);
            lemma_lookup_index(s, key, j);
            lemma_lookup_index(t, key, j);
        } else {
            assert forall|j: int| 0 <= j < t.len() implies #[trigger] key(t[j]) != k by {
                assert(key(t[j]) == key(s[j]));
            }
        }
    }
}

/// Removing the record at position `i` keeps keys unique, drops its key and
/// leaves every other key's record unchanged.
pub proof fn lemma_remove<T, K>(s: Seq<T>, key: spec_fn(T) -> K, i: int)
    requires
        unique_keys(s, key),
        0 <= i < s.len(),
    ensures
        unique_keys(s.remove(i), key),
        lookup(s.remove(i), key, key(s[i])) is None,
        forall|k: K| k != key(s[i]) ==> #[trigger] lookup(s.remove(i), key, k) == lookup(s, key, k),
{
    let t = s.remove(i);
    let ki = key(s[i]);
    assert forall|a: int| 0 <= a < t.len() implies t[a] == s[if a < i { a } else { a + 1 }] by {}
    assert forall|a: int, b: int|
        0 <= a < t.len() && 0 <= b < t.len() && a != b implies #[trigger] key(t[a]) != #[trigger] key(
            t[b],
        ) by {
        let a2 = if a < i { a } else { a + 1 };
        let b2 = if b < i { b } else { b + 1 };
        assert(t[a] == s[a2] && t[b] == s[b2]);
    }
    assert forall|j: int| 0 <= j < t.len() implies #[trigger] key(t[j]) != ki by {
        let j2 = if j < i { j } else { j + 1 };
        assert(t[j] == s[j2]);
    }
    assert forall|k: K| k != ki implies #[trigger] lookup(t, key, k) == lookup(s, key, k) by {
        if has_key(s, key, k) {
            let j = choose|j: int| 0 <= j < s.len() && #[trigger] key(s[j]) == k;
            assert(j != i);
            let j2 = if j < i { j } else { j - 1 };
            assert(t[j2] == s[j]);
            lemma_lookup_index(s, key, j);
            lemma_lookup_index(t, key, j2);
        } else {
            assert forall|j: int| 0 <= j < t.len() implies #[trigger] key(t[j]) != k by {
                let j2 = if j < i { j } else { j + 1 };
                assert(t[j] == s[j2]);
            }
        }
    }
}

} // verus!
