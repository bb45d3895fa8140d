use vstd::prelude::*;

use std::collections::BTreeMap;
use vstd::std_specs::iter::IteratorSpec;

verus! {

/// Whether the keys strictly ascend.
pub open spec fn ascending(keys: Seq<u64>) -> bool {
    forall|i: int, j: int| 0 <= i < j < keys.len() ==> keys[i] < keys[j]
}

/// The keys of `map`, each once, in some order.
fn listed_keys<V>(map: &BTreeMap<u64, V>) -> (r: Vec<u64>)
    ensures
        r@.to_set() == map@.dom(),
        r@.len() == map@.dom().len(),
        r@.no_duplicates(),
{
    broadcast use vstd::std_specs::btree::group_btree_axioms;

    let mut out: Vec<u64> = Vec::new();
    for key in it: map.keys()
        invariant
            out@.len() == it.index(),
            forall|j: int| 0 <= j < out@.len() ==> out@[j] == *it.seq()[j],
            it.seq() == vstd::std_specs::btree::spec_keys_iter(map).remaining(),
    {
        out.push(*key);
    }
    proof {
        let all = vstd::std_specs::btree::spec_keys_iter(map).remaining();
        assert(out@ =~= all.unref());
        assert forall|i: int, j: int|
            0 <= i < out@.len() && 0 <= j < out@.len() && i != j implies out@[i] != out@[j] by {
            assert(all[i] != all[j]);
        }
    }
    out
}

/// The distinct `values` in ascending order.
fn sort_distinct(values: Vec<u64>) -> (r: Vec<u64>)
    requires
        values@.no_duplicates(),
    ensures
        r@.to_set() == values@.to_set(),
        r@.len() == values@.len(),
        ascending(r@),
{
    let mut out: Vec<u64> = Vec::new();
    let mut i: usize = 0;
    proof {
        assert(values@.take(0) =~= Seq::<u64>::empty());
        assert(out@.to_set() =~= Set::<u64>::empty());
        assert(values@.take(0).to_set() =~= Set::<u64>::empty());
    }
    while i < values.len()
        invariant
            i <= values.len(),
            values@.no_duplicates(),
            out@.len() == i,
            out@.to_set() == values@.take(i as int).to_set(),
            ascending(out@),
        decreases values.len() - i,
    {
        let x = values[i];
        proof {
            assert(!values@.take(i as int).contains(x)) by {
                if values@.take(i as int).contains(x) {
                    let k = choose|k: int| 0 <= k < i && values@.take(i as int)[k] == x;
                    assert(values@[k] == values@[i as int]);
                }
            }
            assert(!out@.contains(x)) by {
                if out@.contains(x) {
                    let k = choose|k: int| 0 <= k < out@.len() && out@[k] == x;
                    assert(out@.to_set().contains(x));
                }
            }
        }
        let mut j: usize = 0;
        while j < out.len() && out[j] < x
            invariant
                j <= out@.len(),
                forall|k: int| 0 <= k < j ==> out@[k] < x,
            decreases out@.len() - j,
        {
            j = j + 1;
        }
        let ghost before = out@;
        proof {
            if j < before.len() {
                assert(before[j as int] != x);
                assert forall|k: int| j <= k < before.len() implies before[k] > x by {
                    if k > j {
                        assert(before[j as int] < before[k]);
                    }
                }
            }
        }
        out.insert(j, x);
        proof {
            assert(out@ =~= before.insert(j as int, x));
            assert forall|a: int, b: int| 0 <= a < b < out@.len() implies out@[a] < out@[b] by {
                if b < j {
                    assert(out@[a] == before[a] && out@[b] == before[b]);
                } else if b == j {
                    assert(out@[a] == before[a]);
                } else if a < j {
                    assert(out@[a] == before[a] && out@[b] == before[b - 1]);
                    assert(before[b - 1] > x);
                } else if a == j {
                    assert(out@[b] == before[b - 1]);
                } else {
                    assert(out@[a] == before[a - 1] && out@[b] == before[b - 1]);
                }
            }
            assert(values@.take(i + 1) =~= values@.take(i as int).push(x));
            values@.take(i as int).lemma_push_to_set_commute(x);
            assert forall|y: u64| out@.contains(y) <==> before.contains(y) || y == x by {
                if out@.contains(y) {
                    let k = choose|k: int| 0 <= k < out@.len() && out@[k] == y;
                    if k < j {
                        assert(before[k] == y);
                    } else if k > j {
                        assert(before[k - 1] == y);
                    }
                }
                if before.contains(y) {
                    let k = choose|k: int| 0 <= k < before.len() && before[k] == y;
                    if k < j {
                        assert(out@[k] == y);
                    } else {
                        assert(out@[k + 1] == y);
                    }
                }
                if y == x {
                    assert(out@[j as int] == x);
                }
            }
            assert(out@.to_set() =~= before.to_set().insert(x));
        }
        i = i + 1;
    }
    proof {
        assert(values@.take(values.len() as int) =~= values@);
    }
    out
}

/// The keys of `map` in ascending order, each once.
pub fn ascending_keys<V>(map: &BTreeMap<u64, V>) -> (r: Vec<u64>)
    ensures
        r@.to_set() == map@.dom(),
        r@.len() == map@.dom().len(),
        ascending(r@),
{
    let listed = listed_keys(map);
    sort_distinct(listed)
}

} // verus!
