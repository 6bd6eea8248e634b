//! Vectors as association maps.
//!
//! Rosters, vote lists and the connection table are all stored as vectors of
//! records with a primary key, holding at most one record per key. This
//! module gives such sequences a `Map` view (`assoc_map`) and proves how the
//! view evolves under push, in-place update and removal, so that the
//! contracts of the session layer can be stated as plain map equations.

use vstd::prelude::*;

verus! {

/// A record with a primary key.
pub trait Keyed {
    spec fn key(&self) -> u128;
}

/// True when some record in `s` has key `k`.
pub open spec fn has_key<T: Keyed>(s: Seq<T>, k: u128) -> bool {
    exists|i: int| 0 <= i < s.len() && s[i].key() == k
}

/// True when no two records of `s` share a key.
pub open spec fn distinct_keys<T: Keyed>(s: Seq<T>) -> bool {
    forall|i: int, j: int| 0 <= i < j < s.len() ==> s[i].key() != s[j].key()
}

/// The association map represented by `s`; if keys repeat, later records win.
pub open spec fn assoc_map<T: Keyed>(s: Seq<T>) -> Map<u128, T>
    decreases s.len(),
{
    if s.len() == 0 {
        Map::empty()
    } else {
        assoc_map(s.drop_last()).insert(s.last().key(), s.last())
    }
}

/// A key is in the map view exactly when some record carries it.
pub proof fn lemma_assoc_map_dom<T: Keyed>(s: Seq<T>)
    ensures
        forall|k: u128| #[trigger] assoc_map(s).dom().contains(k) <==> has_key(s, k),
    decreases s.len(),
{
    if s.len() > 0 {
        lemma_assoc_map_dom(s.drop_last());
        assert forall|k: u128| #[trigger] assoc_map(s).dom().contains(k) <==> has_key(s, k) by {
            if assoc_map(s).dom().contains(k) {
                if k == s.last().key() {
                    assert(s[s.len() - 1].key() == k);
                } else {
                    assert(assoc_map(s) == assoc_map(s.drop_last()).insert(
                        s.last().key(),
                        s.last(),
                    ));
                    assert(assoc_map(s.drop_last()).dom().contains(k));
                    assert(has_key(s.drop_last(), k));
                    let i = choose|i: int|
                        0 <= i < s.drop_last().len() && s.drop_last()[i].key() == k;
                    assert(s[i].key() == k);
                }
            }
            if has_key(s, k) {
                assert(assoc_map(s) == assoc_map(s.drop_last()).insert(s.last().key(), s.last()));
                let i = choose|i: int| 0 <= i < s.len() && s[i].key() == k;
                if i < s.len() - 1 {
                    assert(s.drop_last()[i].key() == k);
                    assert(has_key(s.drop_last(), k));
                    assert(assoc_map(s.drop_last()).dom().contains(k));
                    assert(assoc_map(s).dom().contains(k));
                } else {
                    assert(k == s.last().key());
                    assert(assoc_map(s).dom().contains(k));
                }
            }
        }
    }
}

/// With distinct keys, each record is the map's entry for its own key.
pub proof fn lemma_assoc_map_at<T: Keyed>(s: Seq<T>)
    requires
        distinct_keys(s),
    ensures
        forall|i: int|
            0 <= i < s.len() ==> assoc_map(s).contains_pair(#[trigger] s[i].key(), s[i]),
    decreases s.len(),
{
    if s.len() > 0 {
        lemma_distinct_keys_drop_last(s);
        lemma_assoc_map_at(s.drop_last());
        assert forall|i: int|
            0 <= i < s.len() implies assoc_map(s).contains_pair(#[trigger] s[i].key(), s[i]) by {
            if i < s.len() - 1 {
                assert(s.drop_last()[i] == s[i]);
                assert(assoc_map(s.drop_last()).contains_pair(s[i].key(), s[i]));
                assert(s[i].key() != s.last().key());
            }
        }
    }
}

/// Dropping the last record keeps the keys distinct.
pub proof fn lemma_distinct_keys_drop_last<T: Keyed>(s: Seq<T>)
    requires
        s.len() > 0,
        distinct_keys(s),
    ensures
        distinct_keys(s.drop_last()),
{
    assert forall|i: int, j: int|
        0 <= i < j < s.drop_last().len() implies s.drop_last()[i].key() != s.drop_last()[
        j].key() by {
        assert(s.drop_last()[i] == s[i]);
        assert(s.drop_last()[j] == s[j]);
    }
}

/// Appending a record with a fresh key keeps the keys distinct.
pub proof fn lemma_distinct_keys_push<T: Keyed>(s: Seq<T>, x: T)
    requires
        distinct_keys(s),
        !has_key(s, x.key()),
    ensures
        distinct_keys(s.push(x)),
{
    assert forall|i: int, j: int|
        0 <= i < j < s.push(x).len() implies s.push(x)[i].key() != s.push(x)[j].key() by {
        if j < s.len() {
            assert(s.push(x)[i] == s[i]);
            assert(s.push(x)[j] == s[j]);
        } else {
            assert(s.push(x)[i] == s[i]);
            assert(s.push(x)[j] == x);
        }
    }
}

/// Replacing a record by one with the same key keeps the keys distinct.
pub proof fn lemma_distinct_keys_update<T: Keyed>(s: Seq<T>, i: int, x: T)
    requires
        distinct_keys(s),
        0 <= i < s.len(),
        x.key() == s[i].key(),
    ensures
        distinct_keys(s.update(i, x)),
{
    assert forall|a: int, b: int|
        0 <= a < b < s.update(i, x).len() implies s.update(i, x)[a].key() != s.update(i, x)[
        b].key() by {
        assert(s.update(i, x)[a].key() == s[a].key());
        assert(s.update(i, x)[b].key() == s[b].key());
    }
}

/// Removing a record keeps the keys distinct.
pub proof fn lemma_distinct_keys_remove<T: Keyed>(s: Seq<T>, i: int)
    requires
        distinct_keys(s),
        0 <= i < s.len(),
    ensures
        distinct_keys(s.remove(i)),
{
    s.remove_ensures(i);
    assert forall|a: int, b: int|
        0 <= a < b < s.remove(i).len() implies s.remove(i)[a].key() != s.remove(i)[b].key() by {
        let oa: int = if a < i { a } else { a + 1 };
        let ob: int = if b < i { b } else { b + 1 };
        assert(s.remove(i)[a] == s[oa]);
        assert(s.remove(i)[b] == s[ob]);
    }
}

/// Appending a record inserts it into the map view.
pub proof fn lemma_assoc_map_push<T: Keyed>(s: Seq<T>, x: T)
    ensures
        assoc_map(s.push(x)) == assoc_map(s).insert(x.key(), x),
{
    assert(s.push(x).drop_last() =~= s);
    assert(s.push(x).last() == x);
}

/// Replacing a record in place, key unchanged, updates the map view's entry.
pub proof fn lemma_assoc_map_update<T: Keyed>(s: Seq<T>, i: int, x: T)
    requires
        distinct_keys(s),
        0 <= i < s.len(),
        x.key() == s[i].key(),
    ensures
        assoc_map(s.update(i, x)) == assoc_map(s).insert(x.key(), x),
    decreases s.len(),
{
    let t = s.update(i, x);
    if i == s.len() - 1 {
        assert(t.drop_last() =~= s.drop_last());
        assert(t.last() == x);
        assert(assoc_map(s.drop_last()).insert(x.key(), x) =~= assoc_map(s.drop_last()).insert(
            s.last().key(),
            s.last(),
        ).insert(x.key(), x));
    } else {
        lemma_distinct_keys_drop_last(s);
        lemma_assoc_map_update(s.drop_last(), i, x);
        assert(t.drop_last() =~= s.drop_last().update(i, x));
        assert(t.last() == s.last());
        assert(x.key() != s.last().key());
        assert(assoc_map(s.drop_last()).insert(x.key(), x).insert(s.last().key(), s.last())
            =~= assoc_map(s.drop_last()).insert(s.last().key(), s.last()).insert(x.key(), x));
    }
}

/// Removing a record removes its key from the map view.
pub proof fn lemma_assoc_map_remove<T: Keyed>(s: Seq<T>, i: int)
    requires
        distinct_keys(s),
        0 <= i < s.len(),
    ensures
        assoc_map(s.remove(i)) == assoc_map(s).remove(s[i].key()),
    decreases s.len(),
{
    s.remove_ensures(i);
    if i == s.len() - 1 {
        assert(s.remove(i) =~= s.drop_last());
        lemma_assoc_map_dom(s.drop_last());
        assert(!has_key(s.drop_last(), s[i].key())) by {
            if has_key(s.drop_last(), s[i].key()) {
                let j = choose|j: int|
                    0 <= j < s.drop_last().len() && s.drop_last()[j].key() == s[i].key();
                assert(s[j].key() == s[i].key());
            }
        }
        assert(assoc_map(s.drop_last()) =~= assoc_map(s.drop_last()).insert(
            s.last().key(),
            s.last(),
        ).remove(s[i].key()));
    } else {
        lemma_distinct_keys_drop_last(s);
        lemma_assoc_map_remove(s.drop_last(), i);
        assert(s.remove(i).drop_last() =~= s.drop_last().remove(i));
        assert(s.remove(i).last() == s.last());
        assert(s[i].key() != s.last().key());
        assert(assoc_map(s.drop_last()).remove(s[i].key()).insert(s.last().key(), s.last())
            =~= assoc_map(s.drop_last()).insert(s.last().key(), s.last()).remove(s[i].key()));
    }
}

} // verus!
