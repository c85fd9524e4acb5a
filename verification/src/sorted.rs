//! Sorted sets of strings, kept as sorted vectors.
use vstd::prelude::*;
use crate::config::value::{lemma_str_lt_total, lemma_str_lt_trans, str_eq, str_lt, str_lt_exec};

verus! {

/// `s` is sorted by `str_lt` with no string twice.
pub open spec fn strictly_sorted(s: Seq<Seq<char>>) -> bool {
    forall|i: int, j: int| 0 <= i < j < s.len() ==> str_lt(#[trigger] s[i], #[trigger] s[j])
}

/// Where `id` goes in the sorted `ids`: before the first one that does not
/// sort before it.
pub fn sorted_position(ids: &Vec<String>, id: &str) -> (r: (usize, bool))
    requires
        strictly_sorted(ids@.map_values(|s: String| s@)),
    ensures
        r.0 <= ids@.len(),
        forall|k: int| 0 <= k < r.0 ==> str_lt(#[trigger] ids@[k]@, id@),
        r.1 <==> (r.0 < ids@.len() && ids@[r.0 as int]@ == id@),
        !r.1 ==> forall|k: int| r.0 <= k < ids@.len() ==> str_lt(id@, #[trigger] ids@[k]@),
{
    let ghost v = ids@.map_values(|s: String| s@);
    let mut i: usize = 0;
    while i < ids.len() && str_lt_exec(ids[i].as_str(), id)
        invariant
            i <= ids@.len(),
            v == ids@.map_values(|s: String| s@),
            strictly_sorted(v),
            forall|k: int| 0 <= k < i ==> str_lt(#[trigger] ids@[k]@, id@),
        decreases ids.len() - i,
    {
        i = i + 1;
    }
    if i < ids.len() {
        let eq = str_eq(ids[i].as_str(), id);
        proof {
            if !eq {
                lemma_str_lt_total(ids@[i as int]@, id@);
                assert forall|k: int| i <= k < ids@.len() implies str_lt(id@, #[trigger] ids@[k]@) by {
                    if k > i {
                        assert(str_lt(v[i as int], v[k]));
                        lemma_str_lt_trans(id@, ids@[i as int]@, ids@[k]@);
                    }
                }
            }
        }
        (i, eq)
    } else {
        (i, false)
    }
}

/// The distinct strings of `items`, sorted by code point.
pub fn sorted_distinct(items: &Vec<String>) -> (r: Vec<String>)
    ensures
        strictly_sorted(r@.map_values(|s: String| s@)),
        r@.map_values(|s: String| s@).to_set() == items@.map_values(|s: String| s@).to_set(),
{
    let ghost all = items@.map_values(|s: String| s@);
    let mut ids: Vec<String> = Vec::new();
    let mut i: usize = 0;
    while i < items.len()
        invariant
            i <= items@.len(),
            all == items@.map_values(|s: String| s@),
            strictly_sorted(ids@.map_values(|s: String| s@)),
            ids@.map_values(|s: String| s@).to_set() == all.take(i as int).to_set(),
        decreases items.len() - i,
    {
        let id = items[i].as_str();
        let ghost old_v = ids@.map_values(|s: String| s@);
        let (pos, found) = sorted_position(&ids, id);
        let ghost pre = all.take(i as int);
        let ghost post = all.take(i + 1);
        assert(post =~= pre.push(id@));
        assert(post.to_set() =~= pre.to_set().insert(id@)) by {
            assert forall|x: Seq<char>| post.to_set().contains(x) implies pre.to_set().insert(id@).contains(x) by {
                let k = choose|k: int| 0 <= k < post.len() && post[k] == x;
                if k < pre.len() {
                    assert(pre[k] == x);
                }
            }
            assert forall|x: Seq<char>| pre.to_set().insert(id@).contains(x) implies post.to_set().contains(x) by {
                if x == id@ {
                    assert(post[pre.len() as int] == x);
                } else {
                    let k = choose|k: int| 0 <= k < pre.len() && pre[k] == x;
                    assert(post[k] == x);
                }
            }
        }
        if !found {
            ids.insert(pos, id.to_owned());
            let ghost new_v = ids@.map_values(|s: String| s@);
            assert(new_v =~= old_v.insert(pos as int, id@));
            assert forall|a: int, b: int| 0 <= a < b < new_v.len() implies str_lt(#[trigger] new_v[a], #[trigger] new_v[b]) by {
                if b < pos {
                } else if b == pos {
                    assert(new_v[a] == old_v[a]);
                } else if a < pos {
                    assert(new_v[b] == old_v[b - 1]);
                    assert(new_v[a] == old_v[a]);
                    assert(str_lt(old_v[a], id@));
                    lemma_str_lt_trans(old_v[a], id@, old_v[b - 1]);
                } else if a == pos {
                    assert(new_v[b] == old_v[b - 1]);
                } else {
                    assert(new_v[b] == old_v[b - 1]);
                    assert(new_v[a] == old_v[a - 1]);
                }
            }
            assert(new_v.to_set() =~= old_v.to_set().insert(id@)) by {
                assert forall|x: Seq<char>| new_v.to_set().contains(x) implies old_v.to_set().insert(id@).contains(x) by {
                    let k = choose|k: int| 0 <= k < new_v.len() && new_v[k] == x;
                    if k < pos {
                        assert(old_v[k] == x);
                    } else if k > pos {
                        assert(old_v[k - 1] == x);
                    }
                }
                assert forall|x: Seq<char>| old_v.to_set().insert(id@).contains(x) implies new_v.to_set().contains(x) by {
                    if x == id@ {
                        assert(new_v[pos as int] == x);
                    } else {
                        let k = choose|k: int| 0 <= k < old_v.len() && old_v[k] == x;
                        if k < pos {
                            assert(new_v[k] == x);
                        } else {
                            assert(new_v[k + 1] == x);
                        }
                    }
                }
            }
        } else {
            assert(old_v[pos as int] == id@);
            assert(old_v.to_set().contains(id@));
            assert(old_v.to_set().insert(id@) =~= old_v.to_set());
        }
        i = i + 1;
    }
    assert(all.take(all.len() as int) =~= all);
    ids
}

} // verus!
