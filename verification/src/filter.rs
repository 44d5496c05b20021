//! The approximate-membership filter, as far as the builder and the query
//! service use it.
//!
//! The filter is `qfilter::Filter`, a quotient filter. It keeps of every item a
//! fingerprint: the low bits of a 64-bit hash of the item. The number of those
//! bits and the number of fingerprints that the filter admits are fixed when it
//! is made. An item counts as present when its fingerprint is held, so two
//! items with one fingerprint cannot be told apart: that is where false
//! positives come from, and why there are no false negatives.

use vstd::prelude::*;
use vstd::multiset::Multiset;
use vstd::arithmetic::power2::pow2;
use crate::parse::hashes_view;

verus! {

/// `qfilter::Filter`. Nothing is seen of what is inside a filter: all that is
/// known of one is what the names and the two wrappers below say.
#[verifier::external_type_specification]
#[verifier::external_body]
pub struct ExFilter(qfilter::Filter);

/// `qfilter::Error`, the error of a filter that cannot take an item. It is
/// carried through and never looked into.
#[verifier::external_type_specification]
#[verifier::external_body]
pub struct ExFilterError(qfilter::Error);

/// The fingerprints that a filter holds, each as often as it is stored.
pub uninterp spec fn filter_fingerprints(filter: qfilter::Filter) -> Multiset<u64>;

/// What a filter was made with: the number of bits of its fingerprints, at
/// most 64, and the number of fingerprints that it admits when fully grown.
pub uninterp spec fn filter_limits(filter: qfilter::Filter) -> (nat, nat);

/// The 64-bit hash that the filter takes of an item: xxh3 with its default
/// seed, fed the item as a byte slice.
pub uninterp spec fn stable_hash(item: Seq<u8>) -> u64;

/// What a filter holds and what it was made with.
pub struct FilterModel {
    pub held: Multiset<u64>,
    pub bits: nat,
    pub capacity: nat,
}

/// The model of a filter.
pub open spec fn filter_model(filter: qfilter::Filter) -> FilterModel {
    FilterModel {
        held: filter_fingerprints(filter),
        bits: filter_limits(filter).0,
        capacity: filter_limits(filter).1,
    }
}

/// The fingerprint of an item in a filter with fingerprints of `bits` bits.
pub open spec fn fingerprint(bits: nat, item: Seq<u8>) -> u64 {
    (stable_hash(item) as nat % pow2(bits)) as u64
}

/// What inserting one item comes to.
#[derive(Clone, Copy, Debug, PartialEq, Eq, Structural)]
pub enum Insertion {
    /// The fingerprint was not held and is now.
    NewlyAdded,
    /// The fingerprint was held already; the filter is as it was.
    AlreadyPresent,
    /// The fingerprint was not held and the filter is full; the filter is as it was.
    Saturated,
}

impl FilterModel {
    /// Whether the filter answers that `item` is present.
    pub open spec fn contains(self, item: Seq<u8>) -> bool {
        self.held.count(fingerprint(self.bits, item)) > 0
    }

    /// What inserting `item` comes to.
    pub open spec fn insertion(self, item: Seq<u8>) -> Insertion {
        if self.contains(item) {
            Insertion::AlreadyPresent
        } else if self.held.len() < self.capacity {
            Insertion::NewlyAdded
        } else {
            Insertion::Saturated
        }
    }

    /// The filter after inserting `item`.
    pub open spec fn insert(self, item: Seq<u8>) -> FilterModel {
        if self.insertion(item) == Insertion::NewlyAdded {
            FilterModel { held: self.held.insert(fingerprint(self.bits, item)), ..self }
        } else {
            self
        }
    }

    /// The filter after inserting `items` in their order, up to the first
    /// that it refuses.
    pub open spec fn insert_all(self, items: Seq<Seq<u8>>) -> FilterModel
        decreases items.len(), 0nat,
    {
        if items.len() == 0 {
            self
        } else if self.saturates(items.drop_last()) {
            self.insert_all(items.drop_last())
        } else {
            self.insert_all(items.drop_last()).insert(items.last())
        }
    }

    /// Whether the filter refuses one of `items`, inserted in their order.
    pub open spec fn saturates(self, items: Seq<Seq<u8>>) -> bool
        decreases items.len(), 1nat,
    {
        items.len() > 0 && (self.saturates(items.drop_last()) || self.insert_all(
            items.drop_last(),
        ).insertion(items.last()) == Insertion::Saturated)
    }

    /// How many of `items`, inserted in their order up to the first that the
    /// filter refuses, are newly added.
    pub open spec fn newly_added(self, items: Seq<Seq<u8>>) -> nat
        decreases items.len(),
    {
        if items.len() == 0 {
            0
        } else if !self.saturates(items.drop_last()) && self.insert_all(
            items.drop_last(),
        ).insertion(items.last()) == Insertion::NewlyAdded {
            self.newly_added(items.drop_last()) + 1
        } else {
            self.newly_added(items.drop_last())
        }
    }
}

/// `qfilter::Filter::insert`, on a byte slice. It hashes the item and looks
/// for the fingerprint. Where it is held, nothing changes and the answer is
/// `Ok(false)`. Where it is not, the fingerprint is stored and the answer is
/// `Ok(true)`, unless the filter already holds as many fingerprints as it
/// admits fully grown: then nothing changes and the answer is an error. The
/// filter grows on its own below that limit; growing keeps the fingerprints
/// and their width. This is claimed of filters that `qfilter` made, by `new`
/// and its own methods or by reading back what it wrote.
#[verifier::external_body]
fn filter_insert(filter: &mut qfilter::Filter, item: &[u8]) -> (r: Result<bool, qfilter::Error>)
    ensures
        filter_limits(*final(filter)) == filter_limits(*old(filter)),
        ({
            let held = filter_fingerprints(*old(filter));
            let (bits, capacity) = filter_limits(*old(filter));
            let print = (stable_hash(item@) as nat % pow2(bits)) as u64;
            if held.count(print) > 0 {
                r == Ok::<bool, qfilter::Error>(false) && filter_fingerprints(*final(filter))
                    == held
            } else if held.len() < capacity {
                r == Ok::<bool, qfilter::Error>(true) && filter_fingerprints(*final(filter))
                    == held.insert(print)
            } else {
                r.is_err() && filter_fingerprints(*final(filter)) == held
            }
        }),
{
    filter.insert(item)
}

/// `qfilter::Filter::contains`, on a byte slice: whether the fingerprint of
/// the item is held.
#[verifier::external_body]
fn filter_contains(filter: &qfilter::Filter, item: &[u8]) -> (r: bool)
    ensures
        r == (filter_fingerprints(*filter).count(
            (stable_hash(item@) as nat % pow2(filter_limits(*filter).0)) as u64,
        ) > 0),
{
    filter.contains(item)
}

/// Inserts one item and says what that came to.
pub fn insert(filter: &mut qfilter::Filter, item: &[u8]) -> (r: Insertion)
    ensures
        r == filter_model(*old(filter)).insertion(item@),
        filter_model(*final(filter)) == filter_model(*old(filter)).insert(item@),
{
    match filter_insert(filter, item) {
        Ok(true) => Insertion::NewlyAdded,
        Ok(false) => Insertion::AlreadyPresent,
        Err(_) => Insertion::Saturated,
    }
}

/// Whether the filter answers that `item` is present.
pub fn contains(filter: &qfilter::Filter, item: &[u8]) -> (r: bool)
    ensures
        r == filter_model(*filter).contains(item@),
{
    filter_contains(filter, item)
}

/// A filter that refused an item.
#[derive(Debug)]
pub struct FilterSaturated {}

/// Once the filter has refused an item, the rest of the list is not inserted.
pub proof fn lemma_saturation_ends_inserting(model: FilterModel, items: Seq<Seq<u8>>, k: int)
    requires
        0 <= k <= items.len(),
        model.saturates(items.take(k)),
    ensures
        model.saturates(items),
        model.insert_all(items) == model.insert_all(items.take(k)),
        model.newly_added(items) == model.newly_added(items.take(k)),
    decreases items.len() - k,
{
    if k == items.len() {
        assert(items.take(k) =~= items);
    } else {
        assert(items.drop_last().take(k) =~= items.take(k));
        lemma_saturation_ends_inserting(model, items.drop_last(), k);
    }
}

/// Inserting keeps the width of the fingerprints and the capacity, never
/// takes a fingerprint away, and adds as many as were newly added.
pub proof fn lemma_insert_all_grows(model: FilterModel, items: Seq<Seq<u8>>)
    ensures
        model.insert_all(items).bits == model.bits,
        model.insert_all(items).capacity == model.capacity,
        model.held.subset_of(model.insert_all(items).held),
        model.insert_all(items).held.len() == model.held.len() + model.newly_added(items),
        model.newly_added(items) <= items.len(),
        model.newly_added(items) == 0 ==> model.insert_all(items) == model,
    decreases items.len(),
{
    if items.len() > 0 {
        lemma_insert_all_grows(model, items.drop_last());
    }
}

/// No false negatives: where the filter refused none of `items`, it answers
/// of each of them that it is present, and of every item that was present
/// before.
pub proof fn lemma_no_false_negatives(model: FilterModel, items: Seq<Seq<u8>>)
    requires
        !model.saturates(items),
    ensures
        forall|i: int| 0 <= i < items.len() ==> model.insert_all(items).contains(#[trigger] items[i]),
        forall|item: Seq<u8>| model.contains(item) ==> model.insert_all(items).contains(item),
    decreases items.len(),
{
    lemma_insert_all_grows(model, items);
    if items.len() > 0 {
        let front = items.drop_last();
        lemma_no_false_negatives(model, front);
        lemma_insert_all_grows(model, front);
        let before = model.insert_all(front);
        let after = model.insert_all(items);
        assert(after == before.insert(items.last()));
        assert(before.held.subset_of(after.held));
        assert forall|i: int| 0 <= i < items.len() implies after.contains(#[trigger] items[i]) by {
            if i < items.len() - 1 {
                assert(items[i] == front[i]);
                assert(before.contains(front[i]));
            }
        }
    }
}

/// Inserting is commutative: where there is room for both, two items leave
/// the same filter behind in either order.
pub proof fn lemma_insert_commutes(model: FilterModel, a: Seq<u8>, b: Seq<u8>)
    requires
        model.held.len() + 2 <= model.capacity,
    ensures
        model.insert(a).insert(b) == model.insert(b).insert(a),
{
    broadcast use vstd::multiset::group_multiset_axioms;

    let print_a = fingerprint(model.bits, a);
    let print_b = fingerprint(model.bits, b);
    assert(model.held.insert(print_a).insert(print_b) =~= model.held.insert(print_b).insert(
        print_a,
    ));
    assert(model.insert(a).insert(b).held =~= model.insert(b).insert(a).held);
}

/// Inserts `items` in their order, up to the first that the filter refuses.
/// Returns how many were newly added, or an error where one was refused.
pub fn insert_all(filter: &mut qfilter::Filter, items: &Vec<Vec<u8>>) -> (r: Result<
    usize,
    FilterSaturated,
>)
    ensures
        filter_model(*final(filter)) == filter_model(*old(filter)).insert_all(hashes_view(*items)),
        r.is_err() == filter_model(*old(filter)).saturates(hashes_view(*items)),
        r matches Ok(added) ==> added == filter_model(*old(filter)).newly_added(
            hashes_view(*items),
        ),
{
    let ghost start = filter_model(*filter);
    let ghost all = hashes_view(*items);
    let mut added: usize = 0;
    let mut i: usize = 0;
    proof {
        assert(all.take(0) =~= Seq::<Seq<u8>>::empty());
    }
    while i < items.len()
        invariant
            i <= items@.len(),
            all == hashes_view(*items),
            start == filter_model(*old(filter)),
            filter_model(*filter) == start.insert_all(all.take(i as int)),
            !start.saturates(all.take(i as int)),
            added == start.newly_added(all.take(i as int)),
            added <= i,
        decreases items@.len() - i,
    {
        proof {
            assert(all.take(i + 1).drop_last() =~= all.take(i as int));
            assert(all.take(i + 1).last() == items@[i as int]@);
        }
        match insert(filter, items[i].as_slice()) {
            Insertion::NewlyAdded => {
                added += 1;
            },
            Insertion::AlreadyPresent => {},
            Insertion::Saturated => {
                proof {
                    lemma_saturation_ends_inserting(start, all, i + 1);
                }
                return Err(FilterSaturated {  });
            },
        }
        i += 1;
    }
    proof {
        assert(all.take(i as int) =~= all);
    }
    Ok(added)
}

} // verus!
