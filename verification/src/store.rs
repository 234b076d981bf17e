//! Keyed records kept in a vector, read as a map.
//!
//! A registry keeps each kind of record in a `Vec`. A record carries its own
//! key; the record that a key names is the first one in the vector with that
//! key. The contracts of the registries speak of such a vector through
//! [`as_map`], the map from each key to the record it names.

use vstd::prelude::*;

verus! {

/// A record that carries its own key.
pub trait Keyed {
    /// The mathematical type of the key.
    type Key;

    /// The key of this record.
    spec fn key(&self) -> Self::Key;
}

/// `i` is the first position of `s` whose record has the key `k`.
pub open spec fn first_at<E: Keyed>(s: Seq<E>, k: E::Key, i: int) -> bool {
    &&& 0 <= i < s.len()
    &&& s[i].key() == k
    &&& forall|j: int| 0 <= j < i ==> (#[trigger] s[j]).key() != k
}

/// No record of `s` has the key `k`.
pub open spec fn absent<E: Keyed>(s: Seq<E>, k: E::Key) -> bool {
    forall|j: int| 0 <= j < s.len() ==> (#[trigger] s[j]).key() != k
}

/// The position of the record that `k` names, if there is one.
pub open spec fn position<E: Keyed>(s: Seq<E>, k: E::Key) -> Option<int> {
    if exists|i: int| first_at(s, k, i) {
        Some(choose|i: int| first_at(s, k, i))
    } else {
        None
    }
}

/// The records of `s` as a map from each key to the record it names.
pub open spec fn as_map<E: Keyed>(s: Seq<E>) -> Map<E::Key, E> {
    Map::new(
        |k: E::Key| position(s, k) is Some,
        |k: E::Key| s[position(s, k).unwrap()],
    )
}

/// The first position with a key is the position that the key names.
pub proof fn lemma_position_found<E: Keyed>(s: Seq<E>, k: E::Key, i: int)
    requires
        first_at(s, k, i),
    ensures
        position(s, k) == Some(i),
        as_map(s).contains_key(k),
        as_map(s)[k] == s[i],
{
    let c = choose|c: int| first_at(s, k, c);
    assert(first_at(s, k, c));
    if c < i {
        assert(s[c].key() != k);
    }
    if i < c {
        assert(s[i].key() != k);
    }
}

/// A key that no record carries names nothing.
pub proof fn lemma_position_absent<E: Keyed>(s: Seq<E>, k: E::Key)
    requires
        absent(s, k),
    ensures
        position(s, k) is None,
        !as_map(s).contains_key(k),
{
    if exists|i: int| first_at(s, k, i) {
        let c = choose|c: int| first_at(s, k, c);
        assert(s[c].key() != k);
    }
}

/// A key names something exactly when some record carries it.
pub proof fn lemma_position_some<E: Keyed>(s: Seq<E>, k: E::Key)
    ensures
        position(s, k) is Some <==> !absent(s, k),
        position(s, k) is Some ==> first_at(s, k, position(s, k).unwrap()),
{
    if absent(s, k) {
        lemma_position_absent(s, k);
    } else {
        let w = choose|j: int| 0 <= j < s.len() && (#[trigger] s[j]).key() == k;
        lemma_least_hit(s, k, w);
    }
}

/// If the record at `w` carries `k`, some position at or before `w` is the
/// first to do so.
proof fn lemma_least_hit<E: Keyed>(s: Seq<E>, k: E::Key, w: int)
    requires
        0 <= w < s.len(),
        s[w].key() == k,
    ensures
        exists|i: int| first_at(s, k, i),
    decreases w,
{
    if forall|j: int| 0 <= j < w ==> (#[trigger] s[j]).key() != k {
        assert(first_at(s, k, w));
    } else {
        let j = choose|j: int| 0 <= j < w && (#[trigger] s[j]).key() == k;
        lemma_least_hit(s, k, j);
    }
}

/// Appending a record under a key that named nothing gives that key the
/// new position and leaves what every other key names.
pub proof fn lemma_push_positions<E: Keyed>(s: Seq<E>, e: E, k: E::Key)
    requires
        absent(s, e.key()),
    ensures
        position(s.push(e), k) == (if k == e.key() {
            Some(s.len() as int)
        } else {
            position(s, k)
        }),
{
    let t = s.push(e);
    lemma_position_some(s, k);
    if k == e.key() {
        assert(first_at(t, k, s.len() as int));
        lemma_position_found(t, k, s.len() as int);
    } else if position(s, k) is Some {
        let i = position(s, k).unwrap();
        assert(first_at(t, k, i));
        lemma_position_found(t, k, i);
    } else {
        assert(absent(t, k));
        lemma_position_absent(t, k);
    }
}

/// Replacing a record by another with the same key leaves what every key
/// names in place.
pub proof fn lemma_update_positions<E: Keyed>(s: Seq<E>, i: int, e: E, k: E::Key)
    requires
        0 <= i < s.len(),
        e.key() == s[i].key(),
    ensures
        position(s.update(i, e), k) == position(s, k),
{
    let t = s.update(i, e);
    lemma_position_some(s, k);
    if position(s, k) is Some {
        let p = position(s, k).unwrap();
        assert(first_at(t, k, p));
        lemma_position_found(t, k, p);
    } else {
        assert(absent(t, k));
        lemma_position_absent(t, k);
    }
}

/// Appending a record under a key that named nothing adds that one entry to
/// the map.
pub proof fn lemma_push_fresh<E: Keyed>(s: Seq<E>, e: E)
    requires
        absent(s, e.key()),
    ensures
        as_map(s.push(e)) == as_map(s).insert(e.key(), e),
{
    let t = s.push(e);
    assert forall|k: E::Key| #[trigger]
        as_map(t).contains_key(k) == as_map(s).insert(e.key(), e).contains_key(k) && (as_map(
            t,
        ).contains_key(k) ==> as_map(t)[k] == as_map(s).insert(e.key(), e)[k]) by {
        lemma_position_some(s, k);
        if k == e.key() {
            assert(first_at(t, k, s.len() as int));
            lemma_position_found(t, k, s.len() as int);
        } else if position(s, k) is Some {
            let i = position(s, k).unwrap();
            assert(first_at(t, k, i));
            lemma_position_found(t, k, i);
        } else {
            assert(absent(t, k));
            lemma_position_absent(t, k);
        }
    }
    assert(as_map(t) =~= as_map(s).insert(e.key(), e));
}

/// Replacing the record that a key names by another with the same key
/// replaces that one entry of the map.
pub proof fn lemma_update_named<E: Keyed>(s: Seq<E>, i: int, e: E)
    requires
        first_at(s, e.key(), i),
    ensures
        as_map(s.update(i, e)) == as_map(s).insert(e.key(), e),
{
    let t = s.update(i, e);
    assert forall|k: E::Key| #[trigger]
        as_map(t).contains_key(k) == as_map(s).insert(e.key(), e).contains_key(k) && (as_map(
            t,
        ).contains_key(k) ==> as_map(t)[k] == as_map(s).insert(e.key(), e)[k]) by {
        lemma_position_some(s, k);
        if k == e.key() {
            assert(first_at(t, k, i));
            lemma_position_found(t, k, i);
        } else if position(s, k) is Some {
            let p = position(s, k).unwrap();
            assert(p != i);
            assert(first_at(t, k, p));
            lemma_position_found(t, k, p);
        } else {
            assert(absent(t, k));
            lemma_position_absent(t, k);
        }
    }
    assert(as_map(t) =~= as_map(s).insert(e.key(), e));
}

} // verus!
