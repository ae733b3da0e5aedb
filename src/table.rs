//! Association lists of `(key, amount)` entries, the storage behind the
//! ledger's balance and allowance tables, with their map and sum models.

use vstd::prelude::*;

verus! {

/// No two entries of `s` have keys with the same view.
pub open spec fn keys_distinct<K: View>(s: Seq<(K, u64)>) -> bool {
    forall|i: int, j: int| 0 <= i < j < s.len() ==> s[i].0@ != s[j].0@
}

/// The map from key views to amounts that the entries of `s` stand for.
pub open spec fn as_map<K: View>(s: Seq<(K, u64)>) -> Map<K::V, u64>
    decreases s.len(),
{
    if s.len() == 0 {
        Map::empty()
    } else {
        as_map(s.drop_last()).insert(s.last().0@, s.last().1)
    }
}

/// The sum of the amounts of all entries of `s`.
pub open spec fn total<K>(s: Seq<(K, u64)>) -> int
    decreases s.len(),
{
    if s.len() == 0 {
        0
    } else {
        total(s.drop_last()) + s.last().1
    }
}

/// A key has an entry in the map exactly when some entry carries it.
pub proof fn lemma_contains<K: View>(s: Seq<(K, u64)>, k: K::V)
    ensures
        as_map(s).contains_key(k) <==> exists|i: int| 0 <= i < s.len() && s[i].0@ == k,
    decreases s.len(),
{
    if s.len() > 0 {
        let d = s.drop_last();
        lemma_contains(d, k);
        if as_map(d).contains_key(k) {
            let i = choose|i: int| 0 <= i < d.len() && d[i].0@ == k;
            assert(s[i].0@ == k);
        }
        if exists|i: int| 0 <= i < s.len() && s[i].0@ == k {
            let i = choose|i: int| 0 <= i < s.len() && s[i].0@ == k;
            if i < d.len() {
                assert(d[i].0@ == k);
            }
        }
    }
}

/// With distinct keys, the map gives each entry's key that entry's amount.
pub proof fn lemma_value_at<K: View>(s: Seq<(K, u64)>, i: int)
    requires
        keys_distinct(s),
        0 <= i < s.len(),
    ensures
        as_map(s).contains_key(s[i].0@),
        as_map(s)[s[i].0@] == s[i].1,
    decreases s.len(),
{
    if i < s.len() - 1 {
        let d = s.drop_last();
        assert(d[i] == s[i]);
        lemma_value_at(d, i);
    }
}

/// Replacing the amount of one entry, under a key of the same view.
pub proof fn lemma_update<K: View>(s: Seq<(K, u64)>, i: int, e: (K, u64))
    requires
        keys_distinct(s),
        0 <= i < s.len(),
        e.0@ == s[i].0@,
    ensures
        keys_distinct(s.update(i, e)),
        as_map(s.update(i, e)) == as_map(s).insert(e.0@, e.1),
        total(s.update(i, e)) == total(s) - s[i].1 + e.1,
    decreases s.len(),
{
    let t = s.update(i, e);
    assert(keys_distinct(t)) by {
        assert forall|a: int, b: int| 0 <= a < b < t.len() implies t[a].0@ != t[b].0@ by {
            assert(t[a].0@ == s[a].0@);
            assert(t[b].0@ == s[b].0@);
        }
    }
    if i == s.len() - 1 {
        assert(t.drop_last() =~= s.drop_last());
        assert(as_map(t) =~= as_map(s).insert(e.0@, e.1));
    } else {
        let d = s.drop_last();
        assert(t.drop_last() =~= d.update(i, e));
        assert(d[i] == s[i]);
        lemma_update(d, i, e);
        assert(s.last().0@ != s[i].0@);
        assert(as_map(t) =~= as_map(s).insert(e.0@, e.1));
    }
}

/// Appending an entry under a fresh key.
pub proof fn lemma_push<K: View>(s: Seq<(K, u64)>, e: (K, u64))
    requires
        keys_distinct(s),
        !as_map(s).contains_key(e.0@),
    ensures
        keys_distinct(s.push(e)),
        as_map(s.push(e)) == as_map(s).insert(e.0@, e.1),
        total(s.push(e)) == total(s) + e.1,
{
    let t = s.push(e);
    assert(t.drop_last() =~= s);
    lemma_contains(s, e.0@);
    assert(keys_distinct(t)) by {
        assert forall|a: int, b: int| 0 <= a < b < t.len() implies t[a].0@ != t[b].0@ by {
            if b == s.len() {
                assert(t[a] == s[a]);
            } else {
                assert(t[a] == s[a] && t[b] == s[b]);
            }
        }
    }
}

} // verus!
