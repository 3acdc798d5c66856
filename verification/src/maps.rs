//! Walking maps whose order is not specified.

use std::collections::HashMap;
use vstd::prelude::*;

verus! {

broadcast use vstd::std_specs::hash::group_hash_axioms;

/// The keys of a map, each once, in no particular order.
pub fn keys_of<V>(map: &HashMap<u64, V>) -> (r: Vec<u64>)
    ensures
        r@.no_duplicates(),
        forall|k: u64| #[trigger] r@.contains(k) <==> map@.contains_key(k),
{
    let mut out: Vec<u64> = Vec::new();
    let keys = map.keys();
    let ghost all = vstd::std_specs::iter::IteratorSpec::remaining(&keys);
    for key in it: map.keys()
        invariant
            it.seq() == all,
            it.seq().no_duplicates(),
            it.seq().unref().to_set() == map@.dom(),
            out@.len() == it.index(),
            forall|j: int| 0 <= j < it.index() ==> #[trigger] out@[j] == *it.seq()[j],
    {
        out.push(*key);
    }
    assert(out@.len() == all.len());
    assert(forall|j: int| 0 <= j < all.len() ==> #[trigger] out@[j] == *all[j]);
    assert(out@ =~= all.unref());
    proof {
        assert forall|i: int, j: int| 0 <= i < j < out@.len() implies out@[i] != out@[j] by {
            assert(all[i] != all[j]);
        }
        assert forall|k: u64| #[trigger] out@.contains(k) <==> map@.contains_key(k) by {
            assert(out@.to_set().contains(k) == map@.dom().contains(k));
        }
    }
    out
}

/// A copy of a map.
pub fn copy_of(map: &HashMap<u64, u64>) -> (r: HashMap<u64, u64>)
    ensures
        r@ == map@,
{
    without(map, &Vec::new())
}

/// A copy of a map without some of its keys.
pub fn without(map: &HashMap<u64, u64>, dropped: &Vec<u64>) -> (r: HashMap<u64, u64>)
    ensures
        r@ == map@.remove_keys(dropped@.to_set()),
        dropped@.len() == 0 ==> r@ == map@,
{
    let keys = keys_of(map);
    let mut out: HashMap<u64, u64> = HashMap::new();
    let mut i: usize = 0;
    while i < keys.len()
        invariant
            i <= keys@.len(),
            forall|k: u64| #[trigger] keys@.contains(k) <==> map@.contains_key(k),
            forall|k: u64| #[trigger]
                out@.contains_key(k) <==> keys@.take(i as int).contains(k) && !dropped@.contains(k),
            forall|k: u64| #[trigger] out@.contains_key(k) ==> out@[k] == map@[k],
        decreases keys@.len() - i,
    {
        let key: u64 = keys[i];
        let ghost front = keys@.take(i as int);
        assert(keys@.take(i + 1) =~= front.push(key));
        assert(keys@.contains(key));
        assert forall|k: u64| #[trigger] keys@.take(i + 1).contains(k) <==> front.contains(k) || k
            == key by {
            if front.contains(k) {
                let j = choose|j: int| 0 <= j < front.len() && front[j] == k;
                assert(keys@.take(i + 1)[j] == k);
            }
            if k == key {
                assert(keys@.take(i + 1)[i as int] == k);
            }
        }
        if !is_among(dropped, key) {
            match map.get(&key) {
                Some(value) => {
                    out.insert(key, *value);
                },
                None => {},
            }
        }
        i = i + 1;
    }
    assert(keys@.take(i as int) == keys@);
    assert forall|k: u64| #[trigger] out@.contains_key(k) <==> map@.contains_key(k)
        && !dropped@.to_set().contains(k) by {
        assert(keys@.contains(k) <==> map@.contains_key(k));
        assert(dropped@.to_set().contains(k) <==> dropped@.contains(k));
    }
    assert(out@ =~= map@.remove_keys(dropped@.to_set()));
    assert(dropped@.len() == 0 ==> out@ =~= map@);
    out
}

fn is_among(values: &Vec<u64>, value: u64) -> (r: bool)
    ensures
        r == values@.contains(value),
{
    let mut i: usize = 0;
    while i < values.len()
        invariant
            i <= values@.len(),
            forall|j: int| 0 <= j < i ==> #[trigger] values@[j] != value,
        decreases values@.len() - i,
    {
        if values[i] == value {
            return true;
        }
        i = i + 1;
    }
    false
}

} // verus!
