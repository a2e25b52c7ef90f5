//! Grouping of items by a key.

use vstd::prelude::*;
use vstd::laws_cmp::obeys_cmp;
use std::collections::BTreeMap;

verus! {

broadcast use vstd::std_specs::btree::group_btree_axioms;

/// The items of `s` that `key` maps to `t`, in order.
pub open spec fn grouped<K, T, F: Fn(&K) -> T>(key: F, s: Seq<K>, t: T) -> Seq<K>
    decreases s.len(),
{
    if s.len() == 0 {
        Seq::empty()
    } else if key.ensures((&s.last(),), t) {
        grouped(key, s.drop_last(), t).push(s.last())
    } else {
        grouped(key, s.drop_last(), t)
    }
}

/// Groups the items of `v` by `key`: each key that some item has maps to the
/// items with that key, in their order in `v`. `key` must give one key per
/// item, and `T`'s order must be lawful.
pub fn group_by<T: Ord, K, F: Fn(&K) -> T>(v: Vec<K>, key: F) -> (r: BTreeMap<T, Vec<K>>)
    requires
        obeys_cmp::<T>(),
        forall|x: &K| #[trigger] key.requires((x,)),
        forall|x: &K, t1: T, t2: T| key.ensures((x,), t1) && key.ensures((x,), t2) ==> t1 == t2,
    ensures
        forall|t: T| #[trigger] r@.contains_key(t) <==> grouped(key, v@, t).len() > 0,
        forall|t: T| r@.contains_key(t) ==> (#[trigger] r@[t])@ == grouped(key, v@, t),
{
    let ghost all = v@;
    let mut rest = v;
    let mut map: BTreeMap<T, Vec<K>> = BTreeMap::new();
    let ghost mut done: Seq<K> = Seq::empty();
    while rest.len() > 0
        invariant
            obeys_cmp::<T>(),
            forall|x: &K| #[trigger] key.requires((x,)),
            forall|x: &K, t1: T, t2: T| key.ensures((x,), t1) && key.ensures((x,), t2) ==> t1 == t2,
            all == done + rest@,
            forall|t: T| #[trigger] map@.contains_key(t) <==> grouped(key, done, t).len() > 0,
            forall|t: T| map@.contains_key(t) ==> (#[trigger] map@[t])@ == grouped(key, done, t),
        decreases rest@.len(),
    {
        let item = rest.remove(0);
        let ghost it = item;
        let k = key(&item);
        let mut group = match map.remove(&k) {
            Some(g) => g,
            None => Vec::new(),
        };
        group.push(item);
        let ghost before = done;
        proof {
            done = done.push(it);
            assert(done.drop_last() =~= before);
            assert(done.last() == it);
        }
        map.insert(k, group);
        proof {
            assert(all =~= done + rest@);
            assert forall|t: T| #[trigger] map@.contains_key(t) <==> grouped(key, done, t).len() > 0 by {
                if t != k {
                    assert(!key.ensures((&it,), t));
                }
            }
            assert forall|t: T| map@.contains_key(t) implies (#[trigger] map@[t])@ == grouped(
                key,
                done,
                t,
            ) by {
                if t != k {
                    assert(!key.ensures((&it,), t));
                }
            }
        }
    }
    assert(done =~= all);
    map
}

} // verus!
