//! Listings: sequences of key and value pairs in strictly ascending key
//! order, and the maps they stand for.
//!
//! A body is stored as a listing. Because key order is a strict total order,
//! a map has exactly one listing, so whatever is computed from the listing is
//! a function of the map alone.

use crate::key::{
    lemma_precedes_asymmetric, lemma_precedes_total, lemma_precedes_transitive, precedes,
};
use vstd::prelude::*;

verus! {

/// The keys come in strictly ascending order; in particular none occurs twice.
pub open spec fn ascending<V>(s: Seq<(Seq<char>, V)>) -> bool {
    forall|i: int, j: int|
        #![trigger s[i], s[j]]
        0 <= i < j < s.len() ==> precedes(s[i].0, s[j].0)
}

/// Some pair of the sequence has the given key.
pub open spec fn has_key<V>(s: Seq<(Seq<char>, V)>, key: Seq<char>) -> bool {
    exists|i: int| #![trigger s[i]] 0 <= i < s.len() && s[i].0 == key
}

/// The map that a sequence of pairs stands for; of two pairs with one key the
/// later one counts.
pub open spec fn as_map<V>(s: Seq<(Seq<char>, V)>) -> Map<Seq<char>, V>
    decreases s.len(),
{
    if s.len() == 0 {
        Map::empty()
    } else {
        as_map(s.drop_last()).insert(s.last().0, s.last().1)
    }
}

/// `s` is the listing of `m`: ascending, and standing for `m`.
pub open spec fn lists<V>(s: Seq<(Seq<char>, V)>, m: Map<Seq<char>, V>) -> bool {
    ascending(s) && as_map(s) == m
}

/// The listing of a map: its pairs in ascending key order.
pub open spec fn listing<V>(m: Map<Seq<char>, V>) -> Seq<(Seq<char>, V)> {
    choose|s: Seq<(Seq<char>, V)>| lists(s, m)
}

/// The keys of the map are the keys of the pairs.
pub proof fn lemma_as_map_keys<V>(s: Seq<(Seq<char>, V)>)
    ensures
        forall|key: Seq<char>| #[trigger] as_map(s).dom().contains(key) <==> has_key(s, key),
        as_map(s).dom().finite(),
    decreases s.len(),
{
    if s.len() > 0 {
        let t = s.drop_last();
        lemma_as_map_keys(t);
        assert forall|key: Seq<char>| #[trigger]
            as_map(s).dom().contains(key) <==> has_key(s, key) by {
            if as_map(s).dom().contains(key) {
                if key == s.last().0 {
                    assert(s[s.len() - 1].0 == key);
                } else {
                    assert(has_key(t, key));
                    let i = choose|i: int| #![trigger t[i]] 0 <= i < t.len() && t[i].0 == key;
                    assert(s[i].0 == key);
                }
            }
            if has_key(s, key) {
                let i = choose|i: int| #![trigger s[i]] 0 <= i < s.len() && s[i].0 == key;
                if i < s.len() - 1 {
                    assert(t[i].0 == key);
                }
            }
        }
    }
}

/// In an ascending sequence each pair's key is mapped to that pair's value.
pub proof fn lemma_as_map_values<V>(s: Seq<(Seq<char>, V)>)
    requires
        ascending(s),
    ensures
        forall|i: int|
            #![trigger s[i]]
            0 <= i < s.len() ==> as_map(s).dom().contains(s[i].0) && as_map(s)[s[i].0] == s[i].1,
    decreases s.len(),
{
    if s.len() > 0 {
        let t = s.drop_last();
        let last = s.len() - 1;
        assert forall|i: int, j: int| #![trigger t[i], t[j]] 0 <= i < j < t.len() implies precedes(
            t[i].0,
            t[j].0,
        ) by {
            assert(precedes(s[i].0, s[j].0));
        }
        lemma_as_map_values(t);
        assert forall|i: int| #![trigger s[i]] 0 <= i < s.len() implies as_map(s).dom().contains(
            s[i].0,
        ) && as_map(s)[s[i].0] == s[i].1 by {
            if i < last {
                assert(precedes(s[i].0, s[last].0));
                lemma_precedes_asymmetric(s[i].0, s[last].0);
                assert(t[i] == s[i]);
            }
        }
    }
}

/// An ascending sequence has as many pairs as its map has keys.
pub proof fn lemma_as_map_len<V>(s: Seq<(Seq<char>, V)>)
    requires
        ascending(s),
    ensures
        as_map(s).dom().finite(),
        as_map(s).len() == s.len(),
    decreases s.len(),
{
    lemma_as_map_keys(s);
    if s.len() > 0 {
        let t = s.drop_last();
        let last = s.len() - 1;
        assert forall|i: int, j: int| #![trigger t[i], t[j]] 0 <= i < j < t.len() implies precedes(
            t[i].0,
            t[j].0,
        ) by {
            assert(precedes(s[i].0, s[j].0));
        }
        lemma_as_map_len(t);
        lemma_as_map_keys(t);
        if has_key(t, s[last].0) {
            let i = choose|i: int| #![trigger t[i]] 0 <= i < t.len() && t[i].0 == s[last].0;
            assert(precedes(s[i].0, s[last].0));
            lemma_precedes_asymmetric(s[i].0, s[last].0);
        }
        assert(!as_map(t).dom().contains(s[last].0));
    }
}

/// Putting a new key at its place in an ascending sequence keeps it
/// ascending and adds the pair to the map.
pub proof fn lemma_insert_at<V>(s: Seq<(Seq<char>, V)>, p: int, key: Seq<char>, value: V)
    requires
        ascending(s),
        0 <= p <= s.len(),
        forall|i: int| #![trigger s[i]] 0 <= i < p ==> precedes(s[i].0, key),
        forall|i: int| #![trigger s[i]] p <= i < s.len() ==> precedes(key, s[i].0),
    ensures
        lists(s.insert(p, (key, value)), as_map(s).insert(key, value)),
{
    let t = s.insert(p, (key, value));
    assert forall|i: int, j: int| #![trigger t[i], t[j]] 0 <= i < j < t.len() implies precedes(
        t[i].0,
        t[j].0,
    ) by {
        if j < p {
            assert(precedes(s[i].0, s[j].0));
        } else if j == p {
            assert(precedes(s[i].0, key));
        } else if i < p {
            assert(precedes(s[i].0, key));
            assert(precedes(key, s[j - 1].0));
            lemma_precedes_transitive(s[i].0, key, s[j - 1].0);
        } else if i == p {
            assert(precedes(key, s[j - 1].0));
        } else {
            assert(precedes(s[i - 1].0, s[j - 1].0));
        }
    }
    lemma_as_map_keys(s);
    lemma_as_map_keys(t);
    lemma_as_map_values(s);
    lemma_as_map_values(t);
    let m = as_map(s).insert(key, value);
    assert forall|k: Seq<char>| as_map(t).dom().contains(k) <==> m.dom().contains(k) by {
        if has_key(t, k) {
            let j = choose|j: int| #![trigger t[j]] 0 <= j < t.len() && t[j].0 == k;
            if j < p {
                assert(s[j].0 == k);
            } else if j > p {
                assert(s[j - 1].0 == k);
            }
        }
        if has_key(s, k) {
            let i = choose|i: int| #![trigger s[i]] 0 <= i < s.len() && s[i].0 == k;
            if i < p {
                assert(t[i].0 == k);
            } else {
                assert(t[i + 1].0 == k);
            }
        }
        if k == key {
            assert(t[p].0 == k);
        }
    }
    assert forall|k: Seq<char>| as_map(t).dom().contains(k) implies as_map(t)[k] == m[k] by {
        let j = choose|j: int| #![trigger t[j]] 0 <= j < t.len() && t[j].0 == k;
        if j < p {
            assert(s[j] == t[j]);
            lemma_precedes_asymmetric(s[j].0, key);
        } else if j > p {
            assert(s[j - 1] == t[j]);
            lemma_precedes_asymmetric(key, s[j - 1].0);
        }
    }
    assert(as_map(t) =~= m);
}

/// Giving the pair at `p` a new value keeps the sequence ascending and
/// overwrites the key in the map.
pub proof fn lemma_replace_at<V>(s: Seq<(Seq<char>, V)>, p: int, key: Seq<char>, value: V)
    requires
        ascending(s),
        0 <= p < s.len(),
        s[p].0 == key,
    ensures
        lists(s.update(p, (key, value)), as_map(s).insert(key, value)),
{
    let t = s.update(p, (key, value));
    assert forall|i: int, j: int| #![trigger t[i], t[j]] 0 <= i < j < t.len() implies precedes(
        t[i].0,
        t[j].0,
    ) by {
        assert(precedes(s[i].0, s[j].0));
    }
    lemma_as_map_keys(s);
    lemma_as_map_keys(t);
    lemma_as_map_values(s);
    lemma_as_map_values(t);
    let m = as_map(s).insert(key, value);
    assert forall|k: Seq<char>| as_map(t).dom().contains(k) <==> m.dom().contains(k) by {
        if has_key(t, k) {
            let j = choose|j: int| #![trigger t[j]] 0 <= j < t.len() && t[j].0 == k;
            assert(s[j].0 == k);
        }
        if has_key(s, k) {
            let i = choose|i: int| #![trigger s[i]] 0 <= i < s.len() && s[i].0 == k;
            assert(t[i].0 == k);
        }
        if k == key {
            assert(t[p].0 == k);
        }
    }
    assert forall|k: Seq<char>| as_map(t).dom().contains(k) implies as_map(t)[k] == m[k] by {
        let j = choose|j: int| #![trigger t[j]] 0 <= j < t.len() && t[j].0 == k;
        if j != p {
            assert(s[j] == t[j]);
            if j < p {
                assert(precedes(s[j].0, s[p].0));
                lemma_precedes_asymmetric(s[j].0, key);
            } else {
                assert(precedes(s[p].0, s[j].0));
                lemma_precedes_asymmetric(key, s[j].0);
            }
        }
    }
    assert(as_map(t) =~= m);
}

/// The front of an ascending sequence is ascending and stands for the map
/// without the last key.
pub proof fn lemma_drop_last<V>(s: Seq<(Seq<char>, V)>)
    requires
        ascending(s),
        s.len() > 0,
    ensures
        lists(s.drop_last(), as_map(s).remove(s.last().0)),
{
    let t = s.drop_last();
    let last = s.len() - 1;
    assert forall|i: int, j: int| #![trigger t[i], t[j]] 0 <= i < j < t.len() implies precedes(
        t[i].0,
        t[j].0,
    ) by {
        assert(precedes(s[i].0, s[j].0));
    }
    lemma_as_map_keys(t);
    if has_key(t, s[last].0) {
        let i = choose|i: int| #![trigger t[i]] 0 <= i < t.len() && t[i].0 == s[last].0;
        assert(precedes(s[i].0, s[last].0));
        lemma_precedes_asymmetric(s[i].0, s[last].0);
    }
    assert(as_map(t) =~= as_map(s).remove(s.last().0));
}

/// A map has at most one listing.
pub proof fn lemma_listing_unique<V>(s: Seq<(Seq<char>, V)>, t: Seq<(Seq<char>, V)>)
    requires
        ascending(s),
        ascending(t),
        as_map(s) == as_map(t),
    ensures
        s == t,
    decreases s.len(),
{
    lemma_as_map_keys(s);
    lemma_as_map_keys(t);
    if s.len() == 0 {
        if t.len() > 0 {
            assert(has_key(t, t[0].0));
            assert(as_map(t).dom().contains(t[0].0));
        }
        assert(s =~= t);
    } else if t.len() == 0 {
        assert(has_key(s, s[0].0));
        assert(as_map(s).dom().contains(s[0].0));
    } else {
        let a = s.len() - 1;
        let b = t.len() - 1;
        assert(has_key(s, s[a].0));
        assert(as_map(t).dom().contains(s[a].0));
        assert(has_key(t, t[b].0));
        assert(as_map(s).dom().contains(t[b].0));
        let j = choose|j: int| #![trigger t[j]] 0 <= j < t.len() && t[j].0 == s[a].0;
        let i = choose|i: int| #![trigger s[i]] 0 <= i < s.len() && s[i].0 == t[b].0;
        if j < b {
            assert(precedes(t[j].0, t[b].0));
            if i < a {
                assert(precedes(s[i].0, s[a].0));
            }
            lemma_precedes_asymmetric(s[a].0, t[b].0);
        }
        assert(s[a].0 == t[b].0);
        lemma_as_map_values(s);
        lemma_as_map_values(t);
        assert(s[a].1 == t[b].1);
        lemma_drop_last(s);
        lemma_drop_last(t);
        lemma_listing_unique(s.drop_last(), t.drop_last());
        assert(s =~= s.drop_last().push(s[a]));
        assert(t =~= t.drop_last().push(t[b]));
    }
}

/// Every ascending sequence is the listing of its map.
pub proof fn lemma_listing_of_as_map<V>(s: Seq<(Seq<char>, V)>)
    requires
        ascending(s),
    ensures
        listing(as_map(s)) == s,
{
    assert(lists(s, as_map(s)));
    lemma_listing_unique(listing(as_map(s)), s);
}

/// Every map with finitely many keys has a listing.
pub proof fn lemma_listing_exists<V>(m: Map<Seq<char>, V>)
    requires
        m.dom().finite(),
    ensures
        lists(listing(m), m),
    decreases m.dom().len(),
{
    if m.dom().len() == 0 {
        let s = Seq::<(Seq<char>, V)>::empty();
        assert(m.dom() =~= Set::empty());
        assert(as_map(s) =~= m);
        assert(lists(s, m));
    } else {
        let key = m.dom().choose();
        let rest = m.remove(key);
        lemma_listing_exists(rest);
        let s = listing(rest);
        let p = place_of(s, key, 0);
        lemma_place_of(s, key, 0);
        lemma_as_map_keys(s);
        if p < s.len() && s[p].0 == key {
            assert(has_key(s, key));
        }
        lemma_insert_at(s, p, key, m[key]);
        assert(rest.insert(key, m[key]) =~= m);
        assert(lists(s.insert(p, (key, m[key])), m));
    }
}

/// The first place at or after `from` whose key does not come before `key`.
pub open spec fn place_of<V>(s: Seq<(Seq<char>, V)>, key: Seq<char>, from: int) -> int
    decreases s.len() - from,
{
    if 0 <= from < s.len() && precedes(s[from].0, key) {
        place_of(s, key, from + 1)
    } else {
        from
    }
}

/// In an ascending sequence the keys before the place of `key` come before
/// it, and those from the place on do not.
pub proof fn lemma_place_of<V>(s: Seq<(Seq<char>, V)>, key: Seq<char>, from: int)
    requires
        ascending(s),
        0 <= from <= s.len(),
        forall|i: int| #![trigger s[i]] 0 <= i < from ==> precedes(s[i].0, key),
    ensures
        from <= place_of(s, key, from) <= s.len(),
        forall|i: int| #![trigger s[i]] 0 <= i < place_of(s, key, from) ==> precedes(s[i].0, key),
        forall|i: int|
            #![trigger s[i]]
            place_of(s, key, from) <= i < s.len() ==> s[i].0 == key && i == place_of(s, key, from)
                || precedes(key, s[i].0),
    decreases s.len() - from,
{
    if from < s.len() && precedes(s[from].0, key) {
        lemma_place_of(s, key, from + 1);
    } else {
        assert forall|i: int| #![trigger s[i]] from <= i < s.len() implies s[i].0 == key && i
            == from || precedes(key, s[i].0) by {
            lemma_precedes_total(key, s[from].0);
            if i > from {
                assert(precedes(s[from].0, s[i].0));
                if key != s[from].0 {
                    lemma_precedes_transitive(key, s[from].0, s[i].0);
                }
            }
        }
    }
}

} // verus!
