//! Association lists keyed by strings.
//!
//! The diagram stores its node table, its callback table and each node's
//! exit table as vectors of `(String, value)` pairs.  Lookups find the
//! first pair whose key has the wanted characters; insertions overwrite
//! that pair or append a fresh one.  The spec side speaks of the keys as
//! sequences of characters.

use vstd::prelude::*;

verus! {

/// The keys of an association list, as character sequences.
pub open spec fn keys_of<V>(s: Seq<(String, V)>) -> Seq<Seq<char>> {
    s.map_values(|p: (String, V)| p.0@)
}

/// Index of the first pair whose key is `key`, or -1 if there is none.
pub open spec fn key_index(keys: Seq<Seq<char>>, key: Seq<char>) -> int
    decreases keys.len(),
{
    if keys.len() == 0 {
        -1
    } else if keys[0] == key {
        0
    } else {
        let rest = key_index(keys.skip(1), key);
        if rest < 0 {
            -1
        } else {
            rest + 1
        }
    }
}

/// Whether some pair of the list carries `key`.
pub open spec fn has_key<V>(s: Seq<(String, V)>, key: Seq<char>) -> bool {
    key_index(keys_of(s), key) >= 0
}

/// The value of the first pair carrying `key`.
pub open spec fn value_of<V>(s: Seq<(String, V)>, key: Seq<char>) -> V {
    s[key_index(keys_of(s), key)].1
}

pub proof fn lemma_key_index_bounds(keys: Seq<Seq<char>>, key: Seq<char>)
    ensures
        key_index(keys, key) >= 0 ==> key_index(keys, key) < keys.len() && keys[key_index(
            keys,
            key,
        )] == key,
        key_index(keys, key) < 0 ==> key_index(keys, key) == -1,
    decreases keys.len(),
{
    if keys.len() > 0 && keys[0] != key {
        lemma_key_index_bounds(keys.skip(1), key);
    }
}

/// `key_index` finds exactly the first occurrence of the key.
pub proof fn lemma_key_index_first(keys: Seq<Seq<char>>, key: Seq<char>, i: int)
    requires
        0 <= i < keys.len(),
        keys[i] == key,
        forall|j: int| 0 <= j < i ==> keys[j] != key,
    ensures
        key_index(keys, key) == i,
    decreases keys.len(),
{
    if i > 0 {
        lemma_key_index_first(keys.skip(1), key, i - 1);
    }
}

/// When no element equals the key, `key_index` reports -1.
pub proof fn lemma_key_index_none(keys: Seq<Seq<char>>, key: Seq<char>)
    requires
        forall|j: int| 0 <= j < keys.len() ==> keys[j] != key,
    ensures
        key_index(keys, key) == -1,
    decreases keys.len(),
{
    if keys.len() > 0 {
        lemma_key_index_none(keys.skip(1), key);
    }
}

/// When `key_index` reports -1, no element equals the key.
pub proof fn lemma_key_index_absent(keys: Seq<Seq<char>>, key: Seq<char>)
    requires
        key_index(keys, key) == -1,
    ensures
        forall|j: int| 0 <= j < keys.len() ==> keys[j] != key,
    decreases keys.len(),
{
    if keys.len() > 0 {
        if keys[0] != key {
            lemma_key_index_bounds(keys.skip(1), key);
            lemma_key_index_absent(keys.skip(1), key);
            assert forall|j: int| 0 <= j < keys.len() implies keys[j] != key by {
                if j > 0 {
                    assert(keys.skip(1)[j - 1] == keys[j]);
                }
            }
        }
    }
}

/// Everything before the found occurrence differs from the key.
pub proof fn lemma_key_index_is_first(keys: Seq<Seq<char>>, key: Seq<char>)
    requires
        key_index(keys, key) >= 0,
    ensures
        forall|j: int| 0 <= j < key_index(keys, key) ==> keys[j] != key,
    decreases keys.len(),
{
    if keys.len() > 0 && keys[0] != key {
        lemma_key_index_bounds(keys.skip(1), key);
        lemma_key_index_is_first(keys.skip(1), key);
        assert forall|j: int| 0 <= j < key_index(keys, key) implies keys[j] != key by {
            if j > 0 {
                assert(keys.skip(1)[j - 1] == keys[j]);
            }
        }
    }
}

/// Position of the first pair keyed by `key`, if any.
pub fn assoc_find<V>(s: &Vec<(String, V)>, key: &str) -> (r: Option<usize>)
    ensures
        match r {
            Some(i) => i == key_index(keys_of(s@), key@) && i < s@.len(),
            None => !has_key(s@, key@),
        },
{
    let wanted: String = key.to_owned();
    let n = s.len();
    for i in 0..n
        invariant
            n == s@.len(),
            wanted@ == key@,
            forall|j: int| 0 <= j < i ==> keys_of(s@)[j] != key@,
    {
        if s[i].0 == wanted {
            proof {
                lemma_key_index_first(keys_of(s@), key@, i as int);
            }
            return Some(i);
        }
    }
    proof {
        lemma_key_index_none(keys_of(s@), key@);
    }
    None
}

/// Whether the list holds a pair keyed by `key`.
pub fn assoc_contains<V>(s: &Vec<(String, V)>, key: &str) -> (r: bool)
    ensures
        r == has_key(s@, key@),
{
    proof {
        lemma_key_index_bounds(keys_of(s@), key@);
    }
    assoc_find(s, key).is_some()
}

/// The value of the first pair keyed by `key`.
pub fn assoc_get<'a, V>(s: &'a Vec<(String, V)>, key: &str) -> (r: &'a V)
    requires
        has_key(s@, key@),
    ensures
        *r == value_of(s@, key@),
{
    proof {
        lemma_key_index_bounds(keys_of(s@), key@);
    }
    let i = assoc_find(s, key).unwrap();
    &s[i].1
}

/// Insert `value` under `key`: the first pair carrying `key` is
/// overwritten in place, or a fresh pair is appended.
pub fn assoc_insert<V>(s: &mut Vec<(String, V)>, key: String, value: V)
    ensures
        old(s)@.len() <= final(s)@.len() <= old(s)@.len() + 1,
        has_key(final(s)@, key@),
        value_of(final(s)@, key@) == value,
        !has_key(old(s)@, key@) ==> final(s)@ == old(s)@.push((key, value)),
        has_key(old(s)@, key@) ==> final(s)@ == old(s)@.update(
            key_index(keys_of(old(s)@), key@),
            (key, value),
        ),
        keys_of(final(s)@) == if has_key(old(s)@, key@) {
            keys_of(old(s)@)
        } else {
            keys_of(old(s)@).push(key@)
        },
        forall|k: Seq<char>|
            k != key@ ==> #[trigger] has_key(final(s)@, k) == has_key(old(s)@, k),
        forall|k: Seq<char>|
            k != key@ && has_key(old(s)@, k) ==> #[trigger] value_of(final(s)@, k) == value_of(
                old(s)@,
                k,
            ),
{
    proof {
        lemma_key_index_bounds(keys_of(s@), key@);
    }
    match assoc_find(s, key.as_str()) {
        Some(i) => {
            let ghost prior = s@;
            let ghost kview = key@;
            s.set(i, (key, value));
            proof {
                assert(keys_of(s@) =~= keys_of(prior));
                assert(prior[i as int].0@ == kview);
                lemma_key_index_bounds(keys_of(s@), kview);
                lemma_updated_lookup(prior, s@, i as int);
            }
        },
        None => {
            let ghost prior = s@;
            let ghost kview = key@;
            s.push((key, value));
            proof {
                lemma_key_index_absent(keys_of(prior), kview);
                assert(keys_of(s@) =~= keys_of(prior).push(kview));
                lemma_key_index_first(keys_of(s@), kview, prior.len() as int);
                lemma_appended_lookup(prior, s@);
            }
        },
    }
}

/// After overwriting position `i`, lookups of every other key are
/// unchanged.
proof fn lemma_updated_lookup<V>(pre: Seq<(String, V)>, post: Seq<(String, V)>, i: int)
    requires
        0 <= i < pre.len(),
        post.len() == pre.len(),
        keys_of(post) == keys_of(pre),
        key_index(keys_of(pre), pre[i].0@) == i,
        forall|j: int| 0 <= j < pre.len() && j != i ==> post[j] == pre[j],
    ensures
        forall|k: Seq<char>| #[trigger] has_key(post, k) == has_key(pre, k),
        forall|k: Seq<char>|
            k != pre[i].0@ && has_key(pre, k) ==> #[trigger] value_of(post, k) == value_of(pre, k),
{
    assert forall|k: Seq<char>|
        k != pre[i].0@ && has_key(pre, k) implies #[trigger] value_of(post, k) == value_of(
        pre,
        k,
    ) by {
        lemma_key_index_bounds(keys_of(pre), k);
        let idx = key_index(keys_of(pre), k);
        assert(keys_of(pre)[idx] == k);
        assert(pre[idx].0@ == k);
        assert(idx != i);
    }
}

/// After appending a pair, lookups of every other key are unchanged.
proof fn lemma_appended_lookup<V>(pre: Seq<(String, V)>, post: Seq<(String, V)>)
    requires
        post.len() == pre.len() + 1,
        forall|j: int| 0 <= j < pre.len() ==> post[j] == pre[j],
    ensures
        forall|k: Seq<char>|
            k != post[pre.len() as int].0@ ==> #[trigger] has_key(post, k) == has_key(pre, k),
        forall|k: Seq<char>|
            k != post[pre.len() as int].0@ && has_key(pre, k) ==> #[trigger] value_of(post, k)
                == value_of(pre, k),
{
    let added = post[pre.len() as int].0@;
    assert forall|k: Seq<char>| k != added implies #[trigger] has_key(post, k) == has_key(pre, k)
        by {
        lemma_appended_lookup_one(pre, post, k);
    }
    assert forall|k: Seq<char>| k != added && has_key(pre, k) implies #[trigger] value_of(post, k)
        == value_of(pre, k) by {
        lemma_appended_lookup_one(pre, post, k);
    }
}

/// One key's lookup across an append.
proof fn lemma_appended_lookup_one<V>(pre: Seq<(String, V)>, post: Seq<(String, V)>, k: Seq<char>)
    requires
        post.len() == pre.len() + 1,
        forall|j: int| 0 <= j < pre.len() ==> post[j] == pre[j],
        k != post[pre.len() as int].0@,
    ensures
        has_key(post, k) == has_key(pre, k),
        has_key(pre, k) ==> value_of(post, k) == value_of(pre, k),
{
    lemma_key_index_bounds(keys_of(pre), k);
    if has_key(pre, k) {
        let i = key_index(keys_of(pre), k);
        lemma_key_index_is_first(keys_of(pre), k);
        assert(keys_of(post)[i] == k);
        assert forall|j: int| 0 <= j < i implies keys_of(post)[j] != k by {
            assert(keys_of(post)[j] == post[j].0@);
            assert(keys_of(pre)[j] == pre[j].0@);
        }
        lemma_key_index_first(keys_of(post), k, i);
    } else {
        lemma_key_index_absent(keys_of(pre), k);
        assert forall|j: int| 0 <= j < post.len() implies keys_of(post)[j] != k by {
            assert(keys_of(post)[j] == post[j].0@);
            if j < pre.len() {
                assert(keys_of(pre)[j] == pre[j].0@);
            }
        }
        lemma_key_index_none(keys_of(post), k);
    }
}

} // verus!
