//! Association lists with string keys, viewed as maps.
//!
//! The shared projection and subscription tables are small maps keyed by
//! alarm name.  They are held as vectors of pairs with pairwise-distinct
//! keys; this module gives such a vector its mathematical map view and the
//! lemmas that relate the vector operations to map operations.

use vstd::prelude::*;

verus! {

/// The map view of an association list: later entries shadow earlier ones
/// (well-formed lists have no two entries with one key, so nothing is
/// shadowed).
pub open spec fn kv_map<T: View>(s: Seq<(String, T)>) -> Map<Seq<char>, T::V>
    decreases s.len(),
{
    if s.len() == 0 {
        Map::empty()
    } else {
        kv_map(s.drop_last()).insert(s.last().0@, s.last().1@)
    }
}

/// Pairwise-distinct keys.
pub open spec fn kv_unique<T>(s: Seq<(String, T)>) -> bool {
    forall|i: int, j: int| 0 <= i < j < s.len() ==> s[i].0@ != s[j].0@
}

/// Membership and lookup of the map view in terms of the entries.
pub proof fn lemma_kv_map_props<T: View>(s: Seq<(String, T)>)
    requires
        kv_unique(s),
    ensures
        forall|k: Seq<char>|
            #[trigger] kv_map(s).dom().contains(k) <==> exists|i: int|
                0 <= i < s.len() && #[trigger] s[i].0@ == k,
        forall|i: int|
            0 <= i < s.len() ==> kv_map(s).dom().contains(#[trigger] s[i].0@) && kv_map(s)[s[i].0@]
                == s[i].1@,
    decreases s.len(),
{
    if s.len() > 0 {
        let d = s.drop_last();
        assert(forall|i: int| 0 <= i < d.len() ==> d[i] == s[i]);
        lemma_kv_map_props(d);
        assert forall|k: Seq<char>| #[trigger] kv_map(s).dom().contains(k) implies exists|i: int|
            0 <= i < s.len() && #[trigger] s[i].0@ == k by {
            if k == s.last().0@ {
                assert(s[s.len() - 1].0@ == k);
            } else {
                assert(kv_map(s) == kv_map(d).insert(s.last().0@, s.last().1@));
                assert(kv_map(d).dom().contains(k));
                let i = choose|i: int| 0 <= i < d.len() && #[trigger] d[i].0@ == k;
                assert(d[i] == s[i]);
                assert(s[i].0@ == k);
            }
        }
        assert forall|i: int| 0 <= i < s.len() implies kv_map(s).dom().contains(
            #[trigger] s[i].0@,
        ) && kv_map(s)[s[i].0@] == s[i].1@ by {
            if i == s.len() - 1 {
            } else {
                assert(d[i].0@ == s[i].0@ && d[i].1 == s[i].1);
                assert(s[i].0@ != s.last().0@);
            }
        }
    }
}

/// Appending an entry whose key is fresh inserts it into the map view.
pub proof fn lemma_kv_push<T: View>(s: Seq<(String, T)>, x: (String, T))
    requires
        kv_unique(s),
        forall|j: int| 0 <= j < s.len() ==> #[trigger] s[j].0@ != x.0@,
    ensures
        kv_unique(s.push(x)),
        kv_map(s.push(x)) =~= kv_map(s).insert(x.0@, x.1@),
{
    let t = s.push(x);
    assert(t.drop_last() =~= s);
    assert forall|i: int, j: int| 0 <= i < j < t.len() implies t[i].0@ != t[j].0@ by {
        if j < s.len() {
            assert(t[i] == s[i] && t[j] == s[j]);
        } else {
            assert(t[i] == s[i] && t[j] == x);
        }
    }
}

/// Replacing the entry at `i` by moving the last entry into its place and
/// appending the replacement updates the map view at that key.
pub proof fn lemma_kv_replace<T: View>(s: Seq<(String, T)>, i: int, x: (String, T))
    requires
        kv_unique(s),
        0 <= i < s.len(),
        x.0@ == s[i].0@,
    ensures
        kv_unique(s.update(i, s.last()).drop_last().push(x)),
        kv_map(s.update(i, s.last()).drop_last().push(x)) =~= kv_map(s).insert(x.0@, x.1@),
{
    let d = s.update(i, s.last()).drop_last();
    lemma_kv_swap_remove_seq(s, i);
    let t = d.push(x);
    assert forall|j: int| 0 <= j < d.len() implies #[trigger] d[j].0@ != x.0@ by {
        if j == i {
            assert(d[j] == s[s.len() - 1]);
        } else {
            assert(d[j] == s[j]);
        }
    }
    lemma_kv_push(d, x);
    lemma_kv_map_props(s);
    lemma_kv_map_props(d);
    assert forall|k: Seq<char>|
        kv_map(t).dom().contains(k) <==> kv_map(s).insert(x.0@, x.1@).dom().contains(k) by {
        lemma_kv_member_correspondence(s, i, d, k);
    }
    assert forall|k: Seq<char>| #[trigger] kv_map(t).dom().contains(k) implies kv_map(t)[k]
        == kv_map(s).insert(x.0@, x.1@)[k] by {
        if k == x.0@ {
        } else {
            let j = choose|j: int| 0 <= j < d.len() && #[trigger] d[j].0@ == k;
            if j == i {
                assert(d[j] == s[s.len() - 1]);
                assert(kv_map(s)[k] == s[s.len() - 1].1@);
            } else {
                assert(d[j] == s[j]);
                assert(kv_map(s)[k] == s[j].1@);
            }
        }
    }
}

/// Moving the last entry into place `i` and dropping the last entry removes
/// the key at `i` from the map view.
pub proof fn lemma_kv_remove<T: View>(s: Seq<(String, T)>, i: int)
    requires
        kv_unique(s),
        0 <= i < s.len(),
    ensures
        kv_unique(s.update(i, s.last()).drop_last()),
        kv_map(s.update(i, s.last()).drop_last()) =~= kv_map(s).remove(s[i].0@),
{
    let d = s.update(i, s.last()).drop_last();
    lemma_kv_swap_remove_seq(s, i);
    lemma_kv_map_props(s);
    lemma_kv_map_props(d);
    assert forall|k: Seq<char>|
        kv_map(d).dom().contains(k) <==> kv_map(s).remove(s[i].0@).dom().contains(k) by {
        lemma_kv_member_correspondence(s, i, d, k);
        if kv_map(s).remove(s[i].0@).dom().contains(k) {
            assert(kv_map(s).dom().contains(k) && k != s[i].0@);
        }
    }
    assert forall|k: Seq<char>| #[trigger] kv_map(d).dom().contains(k) implies kv_map(d)[k]
        == kv_map(s).remove(s[i].0@)[k] by {
        let j = choose|j: int| 0 <= j < d.len() && #[trigger] d[j].0@ == k;
        if j == i {
            assert(d[j] == s[s.len() - 1]);
            assert(kv_map(s)[k] == s[s.len() - 1].1@);
        } else {
            assert(d[j] == s[j]);
            assert(kv_map(s)[k] == s[j].1@);
        }
    }
}

/// After moving the last entry into place `i` and dropping the last entry,
/// the entries are the old ones except the one at `i`, and the keys are
/// still pairwise distinct.
pub proof fn lemma_kv_swap_remove_seq<T>(s: Seq<(String, T)>, i: int)
    requires
        kv_unique(s),
        0 <= i < s.len(),
    ensures
        s.update(i, s.last()).drop_last().len() == s.len() - 1,
        forall|j: int|
            0 <= j < s.len() - 1 ==> #[trigger] s.update(i, s.last()).drop_last()[j] == (if j == i {
                s[s.len() - 1]
            } else {
                s[j]
            }),
        kv_unique(s.update(i, s.last()).drop_last()),
{
    let d = s.update(i, s.last()).drop_last();
    assert forall|j1: int, j2: int| 0 <= j1 < j2 < d.len() implies d[j1].0@ != d[j2].0@ by {
        if j1 == i {
            assert(d[j1] == s[s.len() - 1] && d[j2] == s[j2]);
        } else if j2 == i {
            assert(d[j1] == s[j1] && d[j2] == s[s.len() - 1]);
        } else {
            assert(d[j1] == s[j1] && d[j2] == s[j2]);
        }
    }
}

/// A key is present after the swap-remove at `i` exactly when it is present
/// in the original and is not the removed key.
proof fn lemma_kv_member_correspondence<T: View>(
    s: Seq<(String, T)>,
    i: int,
    d: Seq<(String, T)>,
    k: Seq<char>,
)
    requires
        kv_unique(s),
        0 <= i < s.len(),
        d == s.update(i, s.last()).drop_last(),
    ensures
        (exists|j: int| 0 <= j < d.len() && #[trigger] d[j].0@ == k) <==> ((exists|j: int|
            0 <= j < s.len() && #[trigger] s[j].0@ == k) && k != s[i].0@),
{
    lemma_kv_swap_remove_seq(s, i);
    if exists|j: int| 0 <= j < d.len() && #[trigger] d[j].0@ == k {
        let j = choose|j: int| 0 <= j < d.len() && #[trigger] d[j].0@ == k;
        if j == i {
            assert(s[s.len() - 1].0@ == k);
        } else {
            assert(s[j].0@ == k);
        }
    }
    if (exists|j: int| 0 <= j < s.len() && #[trigger] s[j].0@ == k) && k != s[i].0@ {
        let j = choose|j: int| 0 <= j < s.len() && #[trigger] s[j].0@ == k;
        if j == s.len() - 1 {
            if i < s.len() - 1 {
                assert(d[i].0@ == k);
            }
        } else {
            assert(d[j].0@ == k);
        }
    }
}

} // verus!
