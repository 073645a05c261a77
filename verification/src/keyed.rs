//! Sequences of records addressed by a string key.
//!
//! Every table and in-memory map of the monitor is a sequence of records with
//! a distinguished key (a mint, an address, a signature). This module gives
//! the spec-level machinery shared by all of them: the index of the first
//! record with a key, key uniqueness, and the facts connecting them.

use vstd::prelude::*;

verus! {

/// A record with a distinguished string key.
pub trait Keyed {
    /// The key under which the record is addressed.
    spec fn key(&self) -> Seq<char>;
}

/// Index of the first record in `s` whose key is `key`, or -1 when there is
/// none.
pub open spec fn idx_of<T: Keyed>(s: Seq<T>, key: Seq<char>) -> int
    decreases s.len(),
{
    if s.len() == 0 {
        -1
    } else if s[0].key() == key {
        0
    } else if idx_of(s.drop_first(), key) == -1 {
        -1
    } else {
        idx_of(s.drop_first(), key) + 1
    }
}

/// Some record in `s` has key `key`.
pub open spec fn has_key<T: Keyed>(s: Seq<T>, key: Seq<char>) -> bool {
    idx_of(s, key) >= 0
}

/// No two records of `s` share a key.
pub open spec fn unique_keys<T: Keyed>(s: Seq<T>) -> bool {
    forall|i: int, j: int| 0 <= i < j < s.len() ==> (#[trigger] s[i].key()) != (#[trigger] s[j].key())
}

/// `s` with `rec` stored under its key: replaces the record holding that key,
/// or appends when the key is new.
pub open spec fn upsert<T: Keyed>(s: Seq<T>, rec: T) -> Seq<T> {
    if has_key(s, rec.key()) {
        s.update(idx_of(s, rec.key()), rec)
    } else {
        s.push(rec)
    }
}

/// `s` with `rec` appended only when its key is new; an existing record wins.
pub open spec fn insert_new<T: Keyed>(s: Seq<T>, rec: T) -> Seq<T> {
    if has_key(s, rec.key()) {
        s
    } else {
        s.push(rec)
    }
}

/// What `idx_of` finds: a well-placed first occurrence, or proof of absence.
pub proof fn lemma_idx_of<T: Keyed>(s: Seq<T>, key: Seq<char>)
    ensures
        -1 <= idx_of(s, key) < s.len(),
        idx_of(s, key) < 0 ==> idx_of(s, key) == -1 && forall|k: int|
            0 <= k < s.len() ==> (#[trigger] s[k].key()) != key,
        idx_of(s, key) >= 0 ==> s[idx_of(s, key)].key() == key && forall|k: int|
            0 <= k < idx_of(s, key) ==> (#[trigger] s[k].key()) != key,
    decreases s.len(),
{
    if s.len() > 0 && s[0].key() != key {
        lemma_idx_of(s.drop_first(), key);
        assert(forall|k: int|
            1 <= k < s.len() ==> (#[trigger] s[k].key()) == s.drop_first()[k - 1].key());
    }
}

/// A position holding the key pins down `idx_of` under unique keys.
pub proof fn lemma_idx_of_unique<T: Keyed>(s: Seq<T>, key: Seq<char>, i: int)
    requires
        unique_keys(s),
        0 <= i < s.len(),
        s[i].key() == key,
    ensures
        idx_of(s, key) == i,
{
    lemma_idx_of(s, key);
    if idx_of(s, key) < 0 {
        assert(s[i].key() != key);
    } else {
        let j = idx_of(s, key);
        if i < j {
            assert(s[i].key() != key);
        } else if j < i {
            assert(s[j].key() != s[i].key());
        }
    }
}

/// Appending a record with a fresh key keeps the keys unique.
pub proof fn lemma_unique_push<T: Keyed>(s: Seq<T>, x: T)
    requires
        unique_keys(s),
        !has_key(s, x.key()),
    ensures
        unique_keys(s.push(x)),
{
    lemma_idx_of(s, x.key());
    assert forall|i: int, j: int| 0 <= i < j < s.push(x).len() implies (#[trigger] s.push(x)[i].key())
        != (#[trigger] s.push(x)[j].key()) by {
        if j < s.len() {
            assert(s[i].key() != s[j].key());
        } else {
            assert(s.push(x)[j] == x);
            assert(s[i].key() != x.key());
        }
    }
}

/// Replacing a record with one of the same key keeps the keys unique.
pub proof fn lemma_unique_update<T: Keyed>(s: Seq<T>, i: int, x: T)
    requires
        unique_keys(s),
        0 <= i < s.len(),
        s[i].key() == x.key(),
    ensures
        unique_keys(s.update(i, x)),
{
}

/// Storing preserves unique keys.
pub proof fn lemma_upsert_unique<T: Keyed>(s: Seq<T>, rec: T)
    requires
        unique_keys(s),
    ensures
        unique_keys(upsert(s, rec)),
{
    lemma_idx_of(s, rec.key());
    if has_key(s, rec.key()) {
        lemma_unique_update(s, idx_of(s, rec.key()), rec);
    } else {
        lemma_unique_push(s, rec);
    }
}

/// After a store, the stored record is the one found under its key.
pub proof fn lemma_upsert_get<T: Keyed>(s: Seq<T>, rec: T)
    requires
        unique_keys(s),
    ensures
        has_key(upsert(s, rec), rec.key()),
        upsert(s, rec)[idx_of(upsert(s, rec), rec.key())] == rec,
{
    lemma_idx_of(s, rec.key());
    lemma_upsert_unique(s, rec);
    if has_key(s, rec.key()) {
        let i = idx_of(s, rec.key());
        lemma_idx_of_unique(s.update(i, rec), rec.key(), i);
    } else {
        lemma_unique_push(s, rec);
        lemma_idx_of_unique(s.push(rec), rec.key(), s.len() as int);
    }
}

/// Inserting preserves unique keys.
pub proof fn lemma_insert_new_unique<T: Keyed>(s: Seq<T>, rec: T)
    requires
        unique_keys(s),
    ensures
        unique_keys(insert_new(s, rec)),
        has_key(insert_new(s, rec), rec.key()),
{
    lemma_idx_of(s, rec.key());
    if !has_key(s, rec.key()) {
        lemma_unique_push(s, rec);
        lemma_idx_of_unique(s.push(rec), rec.key(), s.len() as int);
    }
}

/// Inserting a second record under an occupied key changes nothing: together
/// with [`unique_keys`], the key is held by exactly one record afterwards.
pub proof fn lemma_insert_new_idempotent<T: Keyed>(s: Seq<T>, rec: T, rec2: T)
    requires
        unique_keys(s),
        rec2.key() == rec.key(),
    ensures
        insert_new(insert_new(s, rec), rec2) == insert_new(s, rec),
        has_key(insert_new(s, rec), rec.key()),
        unique_keys(insert_new(s, rec)),
{
    lemma_insert_new_unique(s, rec);
}

/// Two sequences with the same keys position for position give the same
/// index for every key.
pub proof fn lemma_idx_of_same_keys<T: Keyed, U: Keyed>(s1: Seq<T>, s2: Seq<U>, key: Seq<char>)
    requires
        s1.len() == s2.len(),
        forall|i: int| 0 <= i < s1.len() ==> (#[trigger] s1[i].key()) == (#[trigger] s2[i].key()),
    ensures
        idx_of(s1, key) == idx_of(s2, key),
    decreases s1.len(),
{
    if s1.len() > 0 {
        assert(s1[0].key() == s2[0].key());
        assert forall|i: int| 0 <= i < s1.drop_first().len() implies (#[trigger] s1.drop_first()[
            i].key()) == (#[trigger] s2.drop_first()[i].key()) by {
            assert(s1.drop_first()[i] == s1[i + 1]);
            assert(s2.drop_first()[i] == s2[i + 1]);
            assert(s1[i + 1].key() == s2[i + 1].key());
        }
        lemma_idx_of_same_keys(s1.drop_first(), s2.drop_first(), key);
    }
}

/// Storing one record never removes another key.
pub proof fn lemma_upsert_keeps_key<T: Keyed>(s: Seq<T>, rec: T, k: Seq<char>)
    requires
        has_key(s, k),
    ensures
        has_key(upsert(s, rec), k),
{
    lemma_idx_of(s, k);
    let j = idx_of(s, k);
    lemma_idx_of(s, rec.key());
    if has_key(s, rec.key()) {
        let i = idx_of(s, rec.key());
        let s2 = s.update(i, rec);
        if i == j {
            lemma_idx_of(s2, k);
            if idx_of(s2, k) < 0 {
                assert(s2[i].key() != k);
            }
        } else {
            lemma_idx_of(s2, k);
            if idx_of(s2, k) < 0 {
                assert(s2[j].key() != k);
            }
        }
    } else {
        let s2 = s.push(rec);
        lemma_idx_of(s2, k);
        if idx_of(s2, k) < 0 {
            assert(s2[j].key() != k);
        }
    }
}

/// What the filter keeps was already there.
pub proof fn lemma_filter_element_of<T>(s: Seq<T>, pred: spec_fn(T) -> bool, x: T)
    requires
        s.filter(pred).contains(x),
    ensures
        s.contains(x),
    decreases s.len(),
{
    reveal(Seq::filter);
    if s.len() > 0 {
        if pred(s.last()) && x == s.last() {
            assert(s[s.len() - 1] == x);
        } else {
            lemma_filter_element_of(s.drop_last(), pred, x);
            let j = choose|j: int| 0 <= j < s.drop_last().len() && s.drop_last()[j] == x;
            assert(s[j] == x);
        }
    }
}

/// Filtering keeps the keys unique.
pub proof fn lemma_unique_filter<T: Keyed>(s: Seq<T>, pred: spec_fn(T) -> bool)
    requires
        unique_keys(s),
    ensures
        unique_keys(s.filter(pred)),
    decreases s.len(),
{
    reveal(Seq::filter);
    if s.len() > 0 {
        let body = s.drop_last();
        assert(unique_keys(body)) by {
            assert(forall|k: int| 0 <= k < body.len() ==> body[k] == s[k]);
        }
        lemma_unique_filter(body, pred);
        if pred(s.last()) {
            let f = body.filter(pred);
            assert forall|y: T| f.contains(y) implies y.key() != s.last().key() by {
                lemma_filter_element_of(body, pred, y);
                let j = choose|j: int| 0 <= j < body.len() && body[j] == y;
                assert(s[j].key() != s[s.len() - 1].key());
            }
            assert forall|a: int, b: int|
                0 <= a < b < f.push(s.last()).len() implies (#[trigger] f.push(s.last())[a].key())
                != (#[trigger] f.push(s.last())[b].key()) by {
                if b < f.len() {
                    assert(f[a].key() != f[b].key());
                } else {
                    assert(f.push(s.last())[b] == s.last());
                    assert(f.contains(f[a]));
                }
            }
        }
    }
}

/// Removing a record keeps the keys unique.
pub proof fn lemma_unique_remove<T: Keyed>(s: Seq<T>, i: int)
    requires
        unique_keys(s),
        0 <= i < s.len(),
    ensures
        unique_keys(s.remove(i)),
{
    assert forall|a: int, b: int| 0 <= a < b < s.remove(i).len() implies (#[trigger] s.remove(
        i,
    )[a].key()) != (#[trigger] s.remove(i)[b].key()) by {
        let a0 = if a < i {
            a
        } else {
            a + 1
        };
        let b0 = if b < i {
            b
        } else {
            b + 1
        };
        assert(s.remove(i)[a] == s[a0]);
        assert(s.remove(i)[b] == s[b0]);
        assert(s[a0].key() != s[b0].key());
    }
}

} // verus!
