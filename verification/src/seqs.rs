//! Facts about sequences that the catalog is stated with.

use vstd::prelude::*;

verus! {

/// The position of the first `key` in `keys`, or the length of `keys` where
/// there is none.
pub open spec fn spec_position<K>(keys: Seq<K>, key: K) -> int
    decreases keys.len(),
{
    if keys.len() == 0 {
        0
    } else if keys[0] == key {
        0
    } else {
        1 + spec_position(keys.drop_first(), key)
    }
}

/// `spec_position` is the least position that holds `key`.
pub proof fn lemma_position<K>(keys: Seq<K>, key: K)
    ensures
        0 <= spec_position(keys, key) <= keys.len(),
        forall|k: int| 0 <= k < spec_position(keys, key) ==> keys[k] != key,
        spec_position(keys, key) < keys.len() ==> keys[spec_position(keys, key)] == key,
        spec_position(keys, key) < keys.len() <==> keys.contains(key),
    decreases keys.len(),
{
    if keys.len() != 0 && keys[0] != key {
        let rest = keys.drop_first();
        lemma_position(rest, key);
        assert forall|k: int| 0 <= k < spec_position(keys, key) implies keys[k] != key by {
            if k > 0 {
                assert(keys[k] == rest[k - 1]);
            }
        }
        if spec_position(keys, key) < keys.len() {
            assert(keys[spec_position(keys, key)] == rest[spec_position(rest, key)]);
        }
        if keys.contains(key) {
            let i = choose|i: int| 0 <= i < keys.len() && keys[i] == key;
            assert(rest[i - 1] == key);
        }
    } else if keys.len() != 0 {
        assert(keys[0] == key);
    }
}

/// A position that holds `key` and has no `key` before it is its first position.
pub proof fn lemma_position_is<K>(keys: Seq<K>, key: K, at: int)
    requires
        0 <= at <= keys.len(),
        forall|k: int| 0 <= k < at ==> keys[k] != key,
        at < keys.len() ==> keys[at] == key,
    ensures
        spec_position(keys, key) == at,
{
    lemma_position(keys, key);
}

/// The greatest of `ids`, and 0 where none is greater.
pub open spec fn spec_max_id(ids: Seq<int>) -> int
    decreases ids.len(),
{
    if ids.len() == 0 {
        0
    } else {
        let rest = spec_max_id(ids.drop_last());
        if ids.last() > rest {
            ids.last()
        } else {
            rest
        }
    }
}

/// `spec_max_id` is at least 0 and at least every one of `ids`.
pub proof fn lemma_max_id(ids: Seq<int>)
    ensures
        0 <= spec_max_id(ids),
        forall|i: int| 0 <= i < ids.len() ==> ids[i] <= spec_max_id(ids),
        !ids.contains(spec_max_id(ids) + 1),
    decreases ids.len(),
{
    if ids.len() != 0 {
        let rest = ids.drop_last();
        lemma_max_id(rest);
        assert forall|i: int| 0 <= i < ids.len() implies ids[i] <= spec_max_id(ids) by {
            if i < rest.len() {
                assert(ids[i] == rest[i]);
            }
        }
    }
}

/// No element of `s` occurs twice.
pub open spec fn distinct<K>(s: Seq<K>) -> bool {
    forall|i: int, j: int| 0 <= i < j < s.len() ==> s[i] != s[j]
}

} // verus!

verus! {

/// The elements of `s` that `keep` holds of, in their order.
pub open spec fn spec_keep<T>(s: Seq<T>, keep: spec_fn(T) -> bool) -> Seq<T>
    decreases s.len(),
{
    if s.len() == 0 {
        s
    } else if keep(s.last()) {
        spec_keep(s.drop_last(), keep).push(s.last())
    } else {
        spec_keep(s.drop_last(), keep)
    }
}

/// An element is kept exactly if it was there and `keep` holds of it.
pub proof fn lemma_keep_contains<T>(s: Seq<T>, keep: spec_fn(T) -> bool, x: T)
    ensures
        spec_keep(s, keep).contains(x) <==> (s.contains(x) && keep(x)),
    decreases s.len(),
{
    let out = spec_keep(s, keep);
    if s.len() != 0 {
        let rest = s.drop_last();
        let sub = spec_keep(rest, keep);
        lemma_keep_contains(rest, keep, x);
        if out.contains(x) {
            let i = choose|i: int| 0 <= i < out.len() && out[i] == x;
            if keep(s.last()) && i == out.len() - 1 {
                assert(s[s.len() - 1] == x);
            } else {
                assert(sub[i] == x);
                assert(sub.contains(x));
                let j = choose|j: int| 0 <= j < rest.len() && rest[j] == x;
                assert(s[j] == x);
            }
        }
        if s.contains(x) && keep(x) {
            let j = choose|j: int| 0 <= j < s.len() && s[j] == x;
            if j == s.len() - 1 {
                assert(out[out.len() - 1] == x);
            } else {
                assert(rest[j] == x);
                assert(rest.contains(x));
                let i = choose|i: int| 0 <= i < sub.len() && sub[i] == x;
                assert(out[i] == x);
            }
        }
    }
}

/// No two elements of `s` have the same key.
pub open spec fn distinct_by<T, K>(s: Seq<T>, key: spec_fn(T) -> K) -> bool {
    forall|i: int, j: int| 0 <= i < j < s.len() ==> key(s[i]) != key(s[j])
}

/// What is kept of elements with different keys has different keys.
pub proof fn lemma_keep_distinct<T, K>(s: Seq<T>, keep: spec_fn(T) -> bool, key: spec_fn(T) -> K)
    requires
        distinct_by(s, key),
    ensures
        distinct_by(spec_keep(s, keep), key),
        spec_keep(s, keep).len() <= s.len(),
    decreases s.len(),
{
    let out = spec_keep(s, keep);
    if s.len() != 0 {
        let rest = s.drop_last();
        let sub = spec_keep(rest, keep);
        assert forall|i: int, j: int| 0 <= i < j < rest.len() implies key(rest[i]) != key(
            rest[j],
        ) by {
            assert(rest[i] == s[i] && rest[j] == s[j]);
        }
        lemma_keep_distinct(rest, keep, key);
        if keep(s.last()) {
            assert forall|i: int, j: int| 0 <= i < j < out.len() implies key(out[i]) != key(
                out[j],
            ) by {
                if j < sub.len() {
                    assert(out[i] == sub[i] && out[j] == sub[j]);
                } else {
                    assert(out[i] == sub[i]);
                    assert(sub.contains(sub[i]));
                    lemma_keep_contains(rest, keep, sub[i]);
                    let k = choose|k: int| 0 <= k < rest.len() && rest[k] == sub[i];
                    assert(s[k] == sub[i]);
                    assert(out[j] == s[s.len() - 1]);
                }
            }
        }
    }
}

/// Keeping again what was kept changes nothing.
pub proof fn lemma_keep_again<T>(s: Seq<T>, keep: spec_fn(T) -> bool)
    ensures
        spec_keep(spec_keep(s, keep), keep) == spec_keep(s, keep),
    decreases s.len(),
{
    if s.len() != 0 {
        let rest = s.drop_last();
        lemma_keep_again(rest, keep);
        if keep(s.last()) {
            let sub = spec_keep(rest, keep);
            let out = sub.push(s.last());
            assert(out.drop_last() =~= sub);
            assert(out.last() == s.last());
        }
    }
}

/// An element is in a sequence with one more element at its end exactly if
/// it was there or is that element.
pub proof fn lemma_push_contains<T>(s: Seq<T>, x: T, y: T)
    ensures
        s.push(x).contains(y) <==> (s.contains(y) || x == y),
{
    let out = s.push(x);
    if out.contains(y) {
        let i = choose|i: int| 0 <= i < out.len() && out[i] == y;
        if i < s.len() {
            assert(s[i] == y);
        }
    }
    if s.contains(y) {
        let i = choose|i: int| 0 <= i < s.len() && s[i] == y;
        assert(out[i] == y);
    }
    if x == y {
        assert(out[s.len() as int] == y);
    }
}

/// A new element at the end of a sequence without repetition repeats nothing.
pub proof fn lemma_push_distinct<T>(s: Seq<T>, x: T)
    requires
        distinct(s),
        !s.contains(x),
    ensures
        distinct(s.push(x)),
{
    let out = s.push(x);
    assert forall|i: int, j: int| 0 <= i < j < out.len() implies out[i] != out[j] by {
        if j < s.len() {
            assert(out[i] == s[i] && out[j] == s[j]);
        } else {
            assert(out[i] == s[i]);
            assert(s.contains(s[i]));
        }
    }
}

} // verus!

verus! {

/// What is kept of a sequence without repetition has no repetition.
pub proof fn lemma_keep_plain_distinct<T>(s: Seq<T>, keep: spec_fn(T) -> bool)
    requires
        distinct(s),
    ensures
        distinct(spec_keep(s, keep)),
{
    let key = |x: T| x;
    assert(distinct_by(s, key));
    lemma_keep_distinct(s, keep, key);
    let out = spec_keep(s, keep);
    assert forall|i: int, j: int| 0 <= i < j < out.len() implies out[i] != out[j] by {
        assert(key(out[i]) != key(out[j]));
    }
}

} // verus!
