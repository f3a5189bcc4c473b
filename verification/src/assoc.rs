//! Association vectors with unique string keys, modelled as maps.
//!
//! The replica stores its object and user collections as vectors of
//! `(id, record)` pairs whose keys are unique.  Contracts speak about them
//! through `assoc_map`, the finite map from key characters to record views.

use vstd::prelude::*;
use vstd::string::*;

use crate::order::str_eq;

verus! {

/// The map held by an association vector: later entries shadow earlier ones,
/// though with unique keys there is nothing to shadow.
pub open spec fn assoc_map<V: View>(s: Seq<(String, V)>) -> Map<Seq<char>, V::V>
    decreases s.len(),
{
    if s.len() == 0 {
        Map::empty()
    } else {
        assoc_map(s.drop_last()).insert(s.last().0@, s.last().1@)
    }
}

/// Whether the vector's keys are pairwise distinct.
pub open spec fn keys_unique<V>(s: Seq<(String, V)>) -> bool {
    forall|i: int, j: int| 0 <= i < j < s.len() ==> s[i].0@ != s[j].0@
}

/// A key is in the map exactly when some entry holds it.
pub proof fn lemma_assoc_contains<V: View>(s: Seq<(String, V)>, k: Seq<char>)
    ensures
        assoc_map(s).contains_key(k) <==> exists|i: int| 0 <= i < s.len() && s[i].0@ == k,
    decreases s.len(),
{
    if s.len() > 0 {
        lemma_assoc_contains(s.drop_last(), k);
        if s.last().0@ == k {
            assert(s[s.len() - 1].0@ == k);
        } else if assoc_map(s).contains_key(k) {
            let i = choose|i: int| 0 <= i < s.len() - 1 && s.drop_last()[i].0@ == k;
            assert(s[i].0@ == k);
        } else {
            assert forall|i: int| 0 <= i < s.len() implies s[i].0@ != k by {
                if i < s.len() - 1 {
                    assert(s.drop_last()[i].0@ == s[i].0@);
                }
            }
        }
    }
}

/// With unique keys, the entry at `i` is what the map returns for its key.
pub proof fn lemma_assoc_get<V: View>(s: Seq<(String, V)>, i: int)
    requires
        keys_unique(s),
        0 <= i < s.len(),
    ensures
        assoc_map(s).contains_key(s[i].0@),
        assoc_map(s)[s[i].0@] == s[i].1@,
    decreases s.len(),
{
    if i < s.len() - 1 {
        assert(keys_unique(s.drop_last())) by {
            assert(forall|x: int, y: int|
                0 <= x < y < s.len() - 1 ==> s.drop_last()[x].0@ == s[x].0@ && s.drop_last()[y].0@
                    == s[y].0@);
        }
        assert(s.drop_last()[i] == s[i]);
        lemma_assoc_get(s.drop_last(), i);
        assert(s[i].0@ != s.last().0@);
    }
}

/// Uniqueness restricted to a prefix.
pub proof fn lemma_keys_unique_drop_last<V>(s: Seq<(String, V)>)
    requires
        keys_unique(s),
        s.len() > 0,
    ensures
        keys_unique(s.drop_last()),
{
    assert(forall|x: int, y: int|
        0 <= x < y < s.len() - 1 ==> s.drop_last()[x].0@ == s[x].0@ && s.drop_last()[y].0@ == s[y].0@);
}

/// A key held by no entry stays outside the map.
pub proof fn lemma_assoc_absent<V: View>(s: Seq<(String, V)>, k: Seq<char>)
    requires
        forall|i: int| 0 <= i < s.len() ==> s[i].0@ != k,
    ensures
        !assoc_map(s).contains_key(k),
{
    lemma_assoc_contains(s, k);
}

/// Pushing a fresh entry inserts its view into the map.
pub proof fn lemma_assoc_push<V: View>(s: Seq<(String, V)>, id: String, v: V)
    requires
        keys_unique(s),
        forall|i: int| 0 <= i < s.len() ==> s[i].0@ != id@,
    ensures
        keys_unique(s.push((id, v))),
        assoc_map(s.push((id, v))) == assoc_map(s).insert(id@, v@),
{
    let t = s.push((id, v));
    assert(t.drop_last() =~= s);
    assert forall|x: int, y: int| 0 <= x < y < t.len() implies t[x].0@ != t[y].0@ by {
        if y < s.len() {
            assert(t[x] == s[x] && t[y] == s[y]);
        } else {
            assert(t[x] == s[x]);
        }
    }
}

/// Replacing the record at `i` updates the map at that entry's key.
pub proof fn lemma_assoc_set<V: View>(s: Seq<(String, V)>, i: int, id: String, v: V)
    requires
        keys_unique(s),
        0 <= i < s.len(),
        id@ == s[i].0@,
    ensures
        keys_unique(s.update(i, (id, v))),
        assoc_map(s.update(i, (id, v))) == assoc_map(s).insert(id@, v@),
    decreases s.len(),
{
    let t = s.update(i, (id, v));
    assert forall|x: int, y: int| 0 <= x < y < t.len() implies t[x].0@ != t[y].0@ by {
        assert(t[x].0@ == s[x].0@ && t[y].0@ == s[y].0@);
    }
    if i == s.len() - 1 {
        assert(t.drop_last() =~= s.drop_last());
        assert(assoc_map(t) =~= assoc_map(s).insert(id@, v@));
    } else {
        lemma_keys_unique_drop_last(s);
        assert(t.drop_last() =~= s.drop_last().update(i, (id, v)));
        assert(s.drop_last()[i] == s[i]);
        lemma_assoc_set(s.drop_last(), i, id, v);
        assert(t.last() == s.last());
        assert(s[i].0@ != s.last().0@);
        assert(assoc_map(t) =~= assoc_map(s).insert(id@, v@));
    }
}

/// Removing the entry at `i` removes that entry's key from the map.
pub proof fn lemma_assoc_remove<V: View>(s: Seq<(String, V)>, i: int)
    requires
        keys_unique(s),
        0 <= i < s.len(),
    ensures
        keys_unique(s.remove(i)),
        assoc_map(s.remove(i)) == assoc_map(s).remove(s[i].0@),
    decreases s.len(),
{
    let t = s.remove(i);
    assert forall|x: int, y: int| 0 <= x < y < t.len() implies t[x].0@ != t[y].0@ by {
        let sx: int = if x < i {
            x
        } else {
            x + 1
        };
        let sy: int = if y < i {
            y
        } else {
            y + 1
        };
        assert(t[x].0@ == s[sx].0@ && t[y].0@ == s[sy].0@);
    }
    if i == s.len() - 1 {
        assert(t =~= s.drop_last());
        lemma_keys_unique_drop_last(s);
        lemma_assoc_absent(s.drop_last(), s[i].0@);
        assert(assoc_map(t) =~= assoc_map(s).remove(s[i].0@));
    } else {
        lemma_keys_unique_drop_last(s);
        assert(t.drop_last() =~= s.drop_last().remove(i));
        assert(s.drop_last()[i] == s[i]);
        lemma_assoc_remove(s.drop_last(), i);
        assert(t.last() == s.last());
        assert(s[i].0@ != s.last().0@);
        assert(assoc_map(t) =~= assoc_map(s).remove(s[i].0@));
    }
}

/// Finds the entry holding `id`, if any.
pub fn find_key<V: View>(v: &Vec<(String, V)>, id: &str) -> (r: Option<usize>)
    ensures
        match r {
            Some(i) => i < v@.len() && v@[i as int].0@ == id@,
            None => forall|i: int| 0 <= i < v@.len() ==> v@[i].0@ != id@,
        },
{
    let n = v.len();
    let mut i: usize = 0;
    loop
        invariant
            i <= n,
            n == v@.len(),
            forall|k: int| 0 <= k < i ==> v@[k].0@ != id@,
        decreases n - i,
    {
        if i >= n {
            return None;
        }
        if str_eq(v[i].0.as_str(), id) {
            return Some(i);
        }
        i = i + 1;
    }
}

} // verus!
