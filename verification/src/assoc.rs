//! Association lists keyed by text: the mathematical map an entry list
//! denotes, and the facts the keyed stores rely on.
use vstd::prelude::*;

verus! {

/// No key occurs twice.
pub open spec fn keys_unique<T>(s: Seq<(Seq<char>, T)>) -> bool {
    forall|i: int, j: int| 0 <= i < j < s.len() ==> s[i].0 != s[j].0
}

/// The map denoted by an entry list (a later entry wins).
pub open spec fn assoc_map<T>(s: Seq<(Seq<char>, T)>) -> Map<Seq<char>, T>
    decreases s.len(),
{
    if s.len() == 0 {
        Map::empty()
    } else {
        assoc_map(s.drop_last()).insert(s.last().0, s.last().1)
    }
}

/// The map's keys are exactly the listed keys.
pub proof fn lemma_assoc_dom<T>(s: Seq<(Seq<char>, T)>, k: Seq<char>)
    ensures
        assoc_map(s).dom().contains(k) <==> exists|i: int| 0 <= i < s.len() && s[i].0 == k,
    decreases s.len(),
{
    if s.len() > 0 {
        lemma_assoc_dom(s.drop_last(), k);
        if assoc_map(s.drop_last()).dom().contains(k) {
            let i = choose|i: int| 0 <= i < s.drop_last().len() && s.drop_last()[i].0 == k;
            assert(s[i].0 == k);
        }
        if exists|i: int| 0 <= i < s.len() && s[i].0 == k {
            let i = choose|i: int| 0 <= i < s.len() && s[i].0 == k;
            if i < s.len() - 1 {
                assert(s.drop_last()[i].0 == k);
            }
        }
    }
}

/// With unique keys, each entry's value is what its key maps to.
pub proof fn lemma_assoc_index<T>(s: Seq<(Seq<char>, T)>, i: int)
    requires
        keys_unique(s),
        0 <= i < s.len(),
    ensures
        assoc_map(s).dom().contains(s[i].0),
        assoc_map(s)[s[i].0] == s[i].1,
    decreases s.len(),
{
    if i < s.len() - 1 {
        assert(keys_unique(s.drop_last()));
        lemma_assoc_index(s.drop_last(), i);
        assert(s.drop_last()[i] == s[i]);
        assert(s.last().0 != s[i].0);
    }
}

/// An unlisted key is absent.
pub proof fn lemma_assoc_absent<T>(s: Seq<(Seq<char>, T)>, k: Seq<char>)
    requires
        forall|i: int| 0 <= i < s.len() ==> s[i].0 != k,
    ensures
        !assoc_map(s).dom().contains(k),
{
    lemma_assoc_dom(s, k);
}

/// Appending a new entry inserts it.
pub proof fn lemma_assoc_push<T>(s: Seq<(Seq<char>, T)>, k: Seq<char>, v: T)
    ensures
        assoc_map(s.push((k, v))) == assoc_map(s).insert(k, v),
{
    assert(s.push((k, v)).drop_last() =~= s);
}

/// Replacing an entry's value (keys unique) updates the map at its key.
pub proof fn lemma_assoc_update<T>(s: Seq<(Seq<char>, T)>, i: int, v: T)
    requires
        keys_unique(s),
        0 <= i < s.len(),
    ensures
        keys_unique(s.update(i, (s[i].0, v))),
        assoc_map(s.update(i, (s[i].0, v))) == assoc_map(s).insert(s[i].0, v),
    decreases s.len(),
{
    let t = s.update(i, (s[i].0, v));
    assert(keys_unique(t));
    if i == s.len() - 1 {
        assert(t.drop_last() =~= s.drop_last());
        assert(assoc_map(s).insert(s[i].0, v) =~= assoc_map(s.drop_last()).insert(s[i].0, v));
    } else {
        assert(keys_unique(s.drop_last()));
        lemma_assoc_update(s.drop_last(), i, v);
        assert(t.drop_last() =~= s.drop_last().update(i, (s[i].0, v)));
        assert(s.last().0 != s[i].0);
        assert(assoc_map(t) =~= assoc_map(s).insert(s[i].0, v));
    }
}

/// Appending a key that is not yet listed keeps keys unique.
pub proof fn lemma_unique_push<T>(s: Seq<(Seq<char>, T)>, k: Seq<char>, v: T)
    requires
        keys_unique(s),
        forall|i: int| 0 <= i < s.len() ==> s[i].0 != k,
    ensures
        keys_unique(s.push((k, v))),
{
}

/// The map of an entry list is finite.
pub proof fn lemma_assoc_finite<T>(s: Seq<(Seq<char>, T)>)
    ensures
        assoc_map(s).dom().finite(),
    decreases s.len(),
{
    if s.len() > 0 {
        lemma_assoc_finite(s.drop_last());
    }
}

/// A map with a listed key is not empty.
pub proof fn lemma_assoc_nonempty<T>(s: Seq<(Seq<char>, T)>, i: int)
    requires
        0 <= i < s.len(),
    ensures
        assoc_map(s).dom().len() != 0,
{
    lemma_assoc_finite(s);
    lemma_assoc_dom(s, s[i].0);
    if assoc_map(s).dom().len() == 0 {
        assoc_map(s).dom().lemma_len0_is_empty();
        assert(assoc_map(s).dom().contains(s[i].0));
    }
}

} // verus!
