//! Putting texts into order.

use vstd::prelude::*;

use crate::outside::lowercase;
use crate::outside::lowercase_of;
use crate::text::law_text_order_is_total;
use crate::text::law_text_order_is_transitive;
use crate::text::precedes;
use crate::text::text_precedes;
use vstd::relations::sorted_by;
use vstd::relations::total_ordering;

verus! {

/// Whether a list of indices names each of `0..n` exactly once.
pub open spec fn is_permutation(order: Seq<usize>, n: int) -> bool {
    &&& order.len() == n
    &&& forall|i: int| 0 <= i < n ==> 0 <= #[trigger] order[i] < n
    &&& forall|i: int, j: int| 0 <= i < j < n ==> #[trigger] order[i] != #[trigger] order[j]
    &&& forall|k: int| 0 <= k < n ==> #[trigger] covered(order, k)
}

/// Whether a list of indices names an index.
pub open spec fn covered(order: Seq<usize>, k: int) -> bool {
    exists|i: int| 0 <= i < order.len() && #[trigger] order[i] == k
}

/// Whether the indices list the keys in ascending order, equal keys in the
/// order in which they came.
pub open spec fn ascends(keys: Seq<String>, order: Seq<usize>) -> bool {
    forall|i: int, j: int|
        0 <= i < j < order.len() ==> {
            let a = keys[(#[trigger] order[i]) as int]@;
            let b = keys[(#[trigger] order[j]) as int]@;
            precedes(a, b) || (a == b && order[i] < order[j])
        }
}

/// The texts of keys.
pub open spec fn texts(keys: Seq<String>) -> Seq<Seq<char>> {
    Seq::new(keys.len(), |i: int| keys[i]@)
}

/// The texts of the keys that indices name, one after the other.
pub open spec fn picked(keys: Seq<String>, order: Seq<usize>) -> Seq<Seq<char>> {
    Seq::new(order.len(), |i: int| keys[order[i] as int]@)
}

/// Whether one text comes no later than another.
pub open spec fn no_later() -> spec_fn(Seq<char>, Seq<char>) -> bool {
    |a: Seq<char>, b: Seq<char>| a == b || precedes(a, b)
}

/// The same texts in ascending order.
pub open spec fn ascending(texts: Seq<Seq<char>>) -> Seq<Seq<char>> {
    texts.sort_by(no_later())
}

proof fn lemma_no_later_is_total()
    ensures
        total_ordering(no_later()),
{
    assert forall|a: Seq<char>, b: Seq<char>| #[trigger] no_later()(a, b) && #[trigger] no_later()(
        b,
        a,
    ) implies a == b by {
        law_text_order_is_total(a, b);
    }
    assert forall|a: Seq<char>, b: Seq<char>, c: Seq<char>| #[trigger] no_later()(a, b)
        && #[trigger] no_later()(b, c) implies no_later()(a, c) by {
        if a != b && b != c {
            law_text_order_is_transitive(a, b, c);
        }
    }
    assert forall|a: Seq<char>, b: Seq<char>| #[trigger] no_later()(a, b) || #[trigger] no_later()(
        b,
        a,
    ) by {
        law_text_order_is_total(a, b);
    }
}

/// Texts in ascending order are the same texts, each no later than those after it.
/// Nothing is lost, and nothing comes twice that did not come twice before.
pub proof fn law_ascending_texts_ascend(texts: Seq<Seq<char>>)
    ensures
        ascending(texts).to_multiset() == texts.to_multiset(),
        ascending(texts).len() == texts.len(),
        forall|i: int, j: int|
            0 <= i < j < texts.len() ==> #[trigger] ascending(texts)[i] == #[trigger] ascending(
                texts,
            )[j] || precedes(ascending(texts)[i], ascending(texts)[j]),
{
    lemma_no_later_is_total();
    texts.lemma_sort_by_ensures(no_later());
    vstd::seq_lib::to_multiset_len(texts);
    vstd::seq_lib::to_multiset_len(ascending(texts));
    assert forall|i: int, j: int| 0 <= i < j < texts.len() implies #[trigger] ascending(texts)[i]
        == #[trigger] ascending(texts)[j] || precedes(ascending(texts)[i], ascending(texts)[j]) by {
        assert(no_later()(ascending(texts)[i], ascending(texts)[j]));
    }
}

/// In which order a listing comes makes no difference to the ascending order.
pub proof fn law_ascending_order_is_deterministic(a: Seq<Seq<char>>, b: Seq<Seq<char>>)
    requires
        a.to_multiset() == b.to_multiset(),
    ensures
        ascending(a) == ascending(b),
{
    lemma_no_later_is_total();
    a.lemma_sort_by_ensures(no_later());
    b.lemma_sort_by_ensures(no_later());
    vstd::seq_lib::lemma_sorted_unique(ascending(a), ascending(b), no_later());
}

proof fn lemma_picked_ascend(keys: Seq<String>, order: Seq<usize>)
    requires
        ascends(keys, order),
        picked(keys, order).to_multiset() == texts(keys).to_multiset(),
    ensures
        picked(keys, order) == ascending(texts(keys)),
{
    let found = picked(keys, order);
    assert forall|i: int, j: int| 0 <= i < j < found.len() implies no_later()(found[i], found[j]) by {
        assert(found[i] == keys[order[i] as int]@ && found[j] == keys[order[j] as int]@);
    }
    assert(sorted_by(found, no_later()));
    lemma_no_later_is_total();
    texts(keys).lemma_sort_by_ensures(no_later());
    vstd::seq_lib::lemma_sorted_unique(found, ascending(texts(keys)), no_later());
}

proof fn lemma_not_before(x: Seq<char>, b: Seq<char>, a: Seq<char>)
    requires
        !precedes(x, b),
        a == b || precedes(a, b),
    ensures
        a == x || precedes(a, x),
{
    law_text_order_is_total(x, b);
    if x != b && a != b {
        law_text_order_is_transitive(a, b, x);
    }
}

/// The indices of the keys in ascending order; equal keys keep their order.
pub fn order_by_keys(keys: &Vec<String>) -> (order: Vec<usize>)
    ensures
        is_permutation(order@, keys@.len() as int),
        ascends(keys@, order@),
        picked(keys@, order@) == ascending(texts(keys@)),
{
    let mut order: Vec<usize> = Vec::new();
    let mut i: usize = 0;
    assert(picked(keys@, order@) =~= texts(keys@.take(0)));
    while i < keys.len()
        invariant
            i <= keys.len(),
            is_permutation(order@, i as int),
            ascends(keys@, order@),
            picked(keys@, order@).to_multiset() == texts(keys@.take(i as int)).to_multiset(),
        decreases keys.len() - i,
    {
        let mut at: usize = i;
        let ghost key = keys@[i as int]@;
        while at > 0 && text_precedes(&keys[i], &keys[order[at - 1]])
            invariant
                at <= i < keys.len(),
                key == keys@[i as int]@,
                is_permutation(order@, i as int),
                forall|k: int|
                    at <= k < i ==> precedes(key, keys@[(#[trigger] order@[k]) as int]@),
            decreases at,
        {
            at -= 1;
        }
        let ghost before = order@;
        order.insert(at, i);
        proof {
            vstd::seq_lib::to_multiset_insert(picked(keys@, before), at as int, key);
            assert(picked(keys@, order@) =~= picked(keys@, before).insert(at as int, key));
            vstd::seq_lib::to_multiset_build(texts(keys@.take(i as int)), key);
            assert(texts(keys@.take(i + 1)) =~= texts(keys@.take(i as int)).push(key));
            assert forall|k: int| 0 <= k < at implies {
                let a = keys@[(#[trigger] before[k]) as int]@;
                a == key || precedes(a, key)
            } by {
                let last = keys@[before[at - 1] as int]@;
                let a = keys@[before[k] as int]@;
                assert(a == last || precedes(a, last)) by {
                    if k < at - 1 {
                        assert(before[k] != before[at - 1]);
                    }
                }
                lemma_not_before(key, last, a);
            }
            assert forall|p: int, q: int| 0 <= p < q < order@.len() implies {
                let a = keys@[(#[trigger] order@[p]) as int]@;
                let b = keys@[(#[trigger] order@[q]) as int]@;
                precedes(a, b) || (a == b && order@[p] < order@[q])
            } by {
                if q < at {
                    assert(order@[p] == before[p] && order@[q] == before[q]);
                } else if q == at {
                    assert(order@[p] == before[p]);
                } else if p == at {
                    assert(order@[q] == before[q - 1]);
                } else {
                    assert(order@[q] == before[q - 1]);
                    if p < at {
                        assert(order@[p] == before[p]);
                    } else {
                        assert(order@[p] == before[p - 1]);
                    }
                }
            }
            assert forall|p: int| 0 <= p < order@.len() implies 0 <= #[trigger] order@[p] < i + 1 by {
                if p < at {
                    assert(order@[p] == before[p]);
                } else if p > at {
                    assert(order@[p] == before[p - 1]);
                }
            }
            assert forall|k: int| 0 <= k < i + 1 implies #[trigger] covered(order@, k) by {
                if k == i {
                    assert(order@[at as int] == k);
                } else {
                    assert(covered(before, k));
                    let p = choose|p: int| 0 <= p < before.len() && #[trigger] before[p] == k;
                    if p < at {
                        assert(order@[p] == k);
                    } else {
                        assert(order@[p + 1] == k);
                    }
                }
            }
            assert forall|p: int, q: int| 0 <= p < q < order@.len() implies #[trigger] order@[p]
                != #[trigger] order@[q] by {
                if p < at {
                    assert(order@[p] == before[p]);
                } else if p > at {
                    assert(order@[p] == before[p - 1]);
                }
                if q < at {
                    assert(order@[q] == before[q]);
                } else if q > at {
                    assert(order@[q] == before[q - 1]);
                }
            }
        }
        i += 1;
    }
    proof {
        assert(keys@.take(i as int) =~= keys@);
        lemma_picked_ascend(keys@, order@);
    }
    order
}

/// Whether the indices list pairs of keys in ascending order: by the first keys,
/// then by the second ones, equal pairs in the order in which they came.
pub open spec fn ascends_by_two(
    first: Seq<String>,
    second: Seq<String>,
    order: Seq<usize>,
) -> bool {
    forall|i: int, j: int|
        0 <= i < j < order.len() ==> {
            let a = (#[trigger] order[i]) as int;
            let b = (#[trigger] order[j]) as int;
            ||| precedes(first[a]@, first[b]@)
            ||| first[a]@ == first[b]@ && precedes(second[a]@, second[b]@)
            ||| first[a]@ == first[b]@ && second[a]@ == second[b]@ && a < b
        }
}

/// The indices of pairs of keys in ascending order; equal pairs keep their order.
pub fn order_by_two_keys(first: &Vec<String>, second: &Vec<String>) -> (order: Vec<usize>)
    requires
        first@.len() == second@.len(),
    ensures
        is_permutation(order@, first@.len() as int),
        ascends_by_two(first@, second@, order@),
{
    let by_second: Vec<usize> = order_by_keys(second);
    let mut keys: Vec<String> = Vec::new();
    let mut i: usize = 0;
    while i < by_second.len()
        invariant
            i <= by_second.len(),
            first@.len() == second@.len(),
            is_permutation(by_second@, second@.len() as int),
            keys.len() == i,
            forall|k: int| 0 <= k < i ==> #[trigger] keys@[k]@ == first@[by_second@[k] as int]@,
        decreases by_second.len() - i,
    {
        keys.push(first[by_second[i]].clone());
        i += 1;
    }
    let by_first: Vec<usize> = order_by_keys(&keys);
    let mut order: Vec<usize> = Vec::new();
    let mut k: usize = 0;
    while k < by_first.len()
        invariant
            k <= by_first.len(),
            by_second.len() == first.len(),
            by_first.len() == first.len(),
            is_permutation(by_first@, first@.len() as int),
            order.len() == k,
            forall|m: int| 0 <= m < k ==> #[trigger] order@[m] == by_second@[by_first@[m] as int],
        decreases by_first.len() - k,
    {
        order.push(by_second[by_first[k]]);
        k += 1;
    }
    proof {
        assert forall|p: int| 0 <= p < order@.len() implies 0 <= #[trigger] order@[p] < first@.len() by {
            assert(by_first@[p] < first@.len());
        }
        assert forall|p: int, q: int| 0 <= p < q < order@.len() implies #[trigger] order@[p]
            != #[trigger] order@[q] by {
            let a = by_first@[p] as int;
            let b = by_first@[q] as int;
            assert(a != b);
            if a < b {
                assert(by_second@[a] != by_second@[b]);
            } else {
                assert(by_second@[b] != by_second@[a]);
            }
        }
        assert forall|k: int| 0 <= k < first@.len() implies #[trigger] covered(order@, k) by {
            assert(covered(by_second@, k));
            let p = choose|p: int| 0 <= p < by_second@.len() && #[trigger] by_second@[p] == k;
            assert(covered(by_first@, p));
            let q = choose|q: int| 0 <= q < by_first@.len() && #[trigger] by_first@[q] == p;
            assert(order@[q] == k);
        }
        assert forall|p: int, q: int| 0 <= p < q < order@.len() implies {
            let a = (#[trigger] order@[p]) as int;
            let b = (#[trigger] order@[q]) as int;
            ||| precedes(first@[a]@, first@[b]@)
            ||| first@[a]@ == first@[b]@ && precedes(second@[a]@, second@[b]@)
            ||| first@[a]@ == first@[b]@ && second@[a]@ == second@[b]@ && a < b
        } by {
            let a = by_first@[p] as int;
            let b = by_first@[q] as int;
            assert(keys@[a]@ == first@[by_second@[a] as int]@);
            assert(keys@[b]@ == first@[by_second@[b] as int]@);
            if keys@[a]@ == keys@[b]@ {
                law_text_order_is_total(keys@[a]@, keys@[b]@);
                assert(a < b);
                assert(by_second@[a] != by_second@[b]);
            }
        }
    }
    order
}

/// Whether one name comes before another: by the lower-case forms first, then
/// by the names themselves.
pub open spec fn name_before(a: Seq<char>, b: Seq<char>) -> bool {
    precedes(lowercase_of(a), lowercase_of(b)) || (lowercase_of(a) == lowercase_of(b) && (a == b
        || precedes(a, b)))
}

/// The indices of names in the order of their lower-case forms, names that agree
/// there in their own order.
pub fn order_names(names: &Vec<String>) -> (order: Vec<usize>)
    ensures
        is_permutation(order@, names@.len() as int),
        forall|i: int, j: int|
            0 <= i < j < order@.len() ==> name_before(
                names@[(#[trigger] order@[i]) as int]@,
                names@[(#[trigger] order@[j]) as int]@,
            ),
{
    let mut lower: Vec<String> = Vec::new();
    let mut i: usize = 0;
    while i < names.len()
        invariant
            i <= names.len(),
            lower.len() == i,
            forall|k: int| 0 <= k < i ==> #[trigger] lower@[k]@ == lowercase_of(names@[k]@),
        decreases names.len() - i,
    {
        lower.push(lowercase(&names[i]));
        i += 1;
    }
    let order = order_by_two_keys(&lower, names);
    proof {
        assert forall|p: int, q: int| 0 <= p < q < order@.len() implies name_before(
            names@[(#[trigger] order@[p]) as int]@,
            names@[(#[trigger] order@[q]) as int]@,
        ) by {
            let a = order@[p] as int;
            let b = order@[q] as int;
            assert(lower@[a]@ == lowercase_of(names@[a]@));
            assert(lower@[b]@ == lowercase_of(names@[b]@));
        }
    }
    order
}

/// An ordering of keys lists each of them once, and no key comes before a smaller one.
pub proof fn law_orderings_list_every_key_once(keys: Seq<String>, order: Seq<usize>, k: int)
    requires
        is_permutation(order, keys.len() as int),
        ascends(keys, order),
        0 <= k < keys.len(),
    ensures
        order.len() == keys.len(),
        exists|i: int| 0 <= i < order.len() && #[trigger] order[i] == k,
        forall|i: int, j: int| 0 <= i < j < order.len() ==> #[trigger] order[i] != #[trigger] order[j],
        forall|i: int, j: int|
            0 <= i < j < order.len() ==> !precedes(
                keys[(#[trigger] order[j]) as int]@,
                keys[(#[trigger] order[i]) as int]@,
            ),
        forall|i: int, j: int|
            0 <= i < j < order.len() && keys[(#[trigger] order[i]) as int]@ == keys[(
            #[trigger] order[j]) as int]@ ==> order[i] < order[j],
{
    assert(covered(order, k));
    assert forall|i: int, j: int| 0 <= i < j < order.len() implies !precedes(
        keys[(#[trigger] order[j]) as int]@,
        keys[(#[trigger] order[i]) as int]@,
    ) by {
        law_text_order_is_total(keys[order[i] as int]@, keys[order[j] as int]@);
    }
    assert forall|i: int, j: int|
        0 <= i < j < order.len() && keys[(#[trigger] order[i]) as int]@ == keys[(
        #[trigger] order[j]) as int]@ implies order[i] < order[j] by {
        law_text_order_is_total(keys[order[i] as int]@, keys[order[j] as int]@);
    }
}

/// Names whose lower-case forms differ are in the order of those; names that agree
/// there are in their own order. So names are in one order only.
pub proof fn law_names_are_ordered_by_their_lower_case(a: Seq<char>, b: Seq<char>)
    ensures
        precedes(lowercase_of(a), lowercase_of(b)) ==> name_before(a, b) && !name_before(b, a),
        lowercase_of(a) == lowercase_of(b) && precedes(a, b) ==> name_before(a, b) && !name_before(
            b,
            a,
        ),
        name_before(a, a),
        name_before(a, b) && name_before(b, a) ==> a == b,
        name_before(a, b) || name_before(b, a),
{
    law_text_order_is_total(a, b);
    law_text_order_is_total(lowercase_of(a), lowercase_of(b));
}

} // verus!
