//! Sets and maps of image ids, read in ascending order.

use std::collections::{BTreeMap, BTreeSet};
use vstd::laws_cmp::*;
use vstd::prelude::*;
use vstd::std_specs::btree::*;
use vstd::std_specs::cmp::*;
use vstd::std_specs::iter::*;

verus! {

/// Each id is smaller than those after it.
pub open spec fn increasing(ids: Seq<u32>) -> bool {
    forall|i: int, j: int| 0 <= i < j < ids.len() ==> ids[i] < ids[j]
}

/// The ids of a finite set in ascending order.
pub open spec fn ascending(ids: Set<u32>) -> Seq<u32> {
    choose|order: Seq<u32>| increasing(order) && order.to_set() == ids
}

/// There is one ascending order of a set.
pub proof fn lemma_ascending_unique(a: Seq<u32>, b: Seq<u32>)
    requires
        increasing(a),
        increasing(b),
        a.to_set() == b.to_set(),
    ensures
        a == b,
    decreases a.len(),
{
    if a.len() == 0 {
        if b.len() > 0 {
            assert(b.to_set().contains(b[0]));
            assert(a.to_set().contains(b[0]));
        }
        assert(a =~= b);
    } else {
        assert(a.to_set().contains(a.last()));
        assert(b.contains(a.last()));
        assert(b.to_set().contains(b.last()));
        assert(a.contains(b.last()));
        assert(a.last() == b.last());
        assert forall|id: u32| a.drop_last().to_set().contains(id) == b.drop_last().to_set().contains(
            id,
        ) by {
            if a.drop_last().contains(id) {
                let i = choose|i: int| 0 <= i < a.drop_last().len() && a.drop_last()[i] == id;
                assert(a[i] == id && id < a.last());
                assert(a.to_set().contains(id));
                let j = choose|j: int| 0 <= j < b.len() && b[j] == id;
                assert(b.drop_last()[j] == id);
            }
            if b.drop_last().contains(id) {
                let i = choose|i: int| 0 <= i < b.drop_last().len() && b.drop_last()[i] == id;
                assert(b[i] == id && id < b.last());
                assert(b.to_set().contains(id));
                let j = choose|j: int| 0 <= j < a.len() && a[j] == id;
                assert(a.drop_last()[j] == id);
            }
        }
        assert(a.drop_last().to_set() =~= b.drop_last().to_set());
        lemma_ascending_unique(a.drop_last(), b.drop_last());
        assert(a =~= a.drop_last().push(a.last()));
        assert(b =~= b.drop_last().push(b.last()));
    }
}

proof fn lemma_ascending_below(ids: Set<u32>, bound: nat) -> (order: Seq<u32>)
    requires
        bound <= u32::MAX + 1,
    ensures
        increasing(order),
        forall|id: u32| order.contains(id) <==> ids.contains(id) && id < bound,
    decreases bound,
{
    if bound == 0 {
        Seq::empty()
    } else {
        let last = (bound - 1) as u32;
        let shorter = lemma_ascending_below(ids, (bound - 1) as nat);
        assert forall|i: int| 0 <= i < shorter.len() implies shorter[i] < last by {
            assert(shorter.contains(shorter[i]));
        }
        if ids.contains(last) {
            let order = shorter.push(last);
            assert forall|id: u32| order.contains(id) <==> ids.contains(id) && id < bound by {
                if order.contains(id) {
                    let i = choose|i: int| 0 <= i < order.len() && order[i] == id;
                    assert(i < shorter.len() ==> shorter.contains(id));
                }
                if id == last {
                    assert(order[shorter.len() as int] == id);
                } else if shorter.contains(id) {
                    let i = choose|i: int| 0 <= i < shorter.len() && shorter[i] == id;
                    assert(order[i] == id);
                }
            }
            order
        } else {
            shorter
        }
    }
}

/// Every set has an ascending order.
pub proof fn lemma_ascending_exists(ids: Set<u32>)
    ensures
        increasing(ascending(ids)),
        ascending(ids).to_set() == ids,
{
    let order = lemma_ascending_below(ids, (u32::MAX + 1) as nat);
    assert(order.to_set() =~= ids);
}

/// An ascending sequence is the ascending order of its ids.
pub proof fn lemma_ascending(order: Seq<u32>)
    requires
        increasing(order),
    ensures
        ascending(order.to_set()) == order,
{
    let chosen = ascending(order.to_set());
    assert(increasing(order) && order.to_set() == order.to_set());
    lemma_ascending_unique(chosen, order);
}

proof fn lemma_take_all<T>(items: Seq<T>)
    ensures
        items.take(items.len() as int) == items,
{
    assert(items.take(items.len() as int) =~= items);
}

proof fn lemma_reference_order()
    ensures
        obeys_cmp::<u32>(),
        obeys_cmp::<&u32>(),
{
    broadcast use group_laws_cmp;

    reveal(obeys_cmp_partial_ord);
    reveal(obeys_cmp_ord);
    assert(obeys_cmp::<u32>());
}

/// The ids of a set, smallest first.
pub fn ids_of(ids: &BTreeSet<u32>) -> (order: Vec<u32>)
    ensures
        order@ == ascending(ids@),
{
    broadcast use group_btree_axioms;

    proof {
        lemma_reference_order();
    }
    let mut order: Vec<u32> = Vec::new();
    let ghost all = IteratorSpec::remaining(&spec_btree_keys_iter(ids));
    for id in it: ids.iter()
        invariant
            it.seq() == all,
            order@ == all.unref().take(it.index()),
    {
        order.push(*id);
        proof {
            assert(all.unref().take(it.index() + 1) =~= all.unref().take(it.index()).push(
                *all[it.index()],
            ));
        }
    }
    proof {
        lemma_take_all(all.unref());
        assert(increasing(all.unref())) by {
            assert forall|i: int, j: int| 0 <= i < j < all.unref().len() implies all.unref()[i]
                < all.unref()[j] by {
                assert(OrdSpec::cmp_spec(&all[i], &all[j]) is Less);
            }
        }
        lemma_ascending(all.unref());
    }
    order
}

/// The values of a map, by ascending keys.
pub open spec fn values_by_key(images: Map<u32, u32>) -> Seq<u32> {
    ascending(images.dom()).map_values(|key: u32| images[key])
}

/// The values of a map, by ascending keys.
pub fn values_of(images: &BTreeMap<u32, u32>) -> (values: Vec<u32>)
    ensures
        values@ == values_by_key(images@),
{
    broadcast use group_btree_axioms;

    proof {
        lemma_reference_order();
    }
    let mut values: Vec<u32> = Vec::new();
    let ghost all = IteratorSpec::remaining(&spec_btree_map_iter(images));
    let ghost keys = all.map_values(|kv: (&u32, &u32)| *kv.0);
    for pair in it: images.iter()
        invariant
            it.seq() == all,
            values@ == all.map_values(|kv: (&u32, &u32)| *kv.1).take(it.index()),
    {
        values.push(*pair.1);
        proof {
            let mapped = all.map_values(|kv: (&u32, &u32)| *kv.1);
            assert(mapped.take(it.index() + 1) =~= mapped.take(it.index()).push(
                mapped[it.index()],
            ));
        }
    }
    proof {
        let mapped = all.map_values(|kv: (&u32, &u32)| *kv.1);
        lemma_take_all(mapped);
        assert(increasing(keys)) by {
            assert forall|i: int, j: int| 0 <= i < j < keys.len() implies keys[i] < keys[j] by {
                assert(OrdSpec::cmp_spec(&keys[i], &keys[j]) is Less);
            }
        }
        assert(keys.to_set() =~= images@.dom()) by {
            assert forall|key: u32| images@.dom().contains(key) implies keys.contains(key) by {
                assert(images@.contains_key(key));
                let i = choose|i: int| 0 <= i < all.len() && all[i] == (&key, &images@[key]);
                assert(keys[i] == key);
            }
            assert forall|key: u32| keys.contains(key) implies images@.dom().contains(key) by {
                let i = choose|i: int| 0 <= i < keys.len() && keys[i] == key;
                assert(images@.contains_key(*all[i].0));
            }
        }
        lemma_ascending(keys);
        assert forall|i: int| 0 <= i < all.len() implies mapped[i] == images@[keys[i]] by {
            assert(images@.contains_key(*all[i].0));
        }
        assert(values@ =~= values_by_key(images@));
    }
    values
}

/// No images, no values.
pub proof fn lemma_no_values()
    ensures
        values_by_key(Map::empty()) == Seq::<u32>::empty(),
{
    let none = Seq::<u32>::empty();
    lemma_ascending(none);
    assert(none.to_set() =~= Map::<u32, u32>::empty().dom());
    assert(values_by_key(Map::empty()) =~= none);
}

} // verus!
