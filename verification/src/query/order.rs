//! The order that a stable sort realises among the positions of a run of
//! keys, and why there is exactly one such order.

use vstd::prelude::*;
use vstd::set_lib::{lemma_int_range, lemma_len_subset, lemma_subset_equality, set_int_range};
use crate::text::{
    lemma_lex_lt_connected, lemma_lex_lt_irreflexive, lemma_lex_lt_transitive, lex_lt,
};

verus! {

/// Whether key `a` comes strictly before key `b` in the given direction.
pub open spec fn key_before(a: Seq<char>, b: Seq<char>, ascending: bool) -> bool {
    if ascending {
        lex_lt(a, b)
    } else {
        lex_lt(b, a)
    }
}

/// Whether the record at position `a` has its place before the record at
/// position `b`: its key comes first, or the keys are equal and `a` is the
/// earlier position.
pub open spec fn goes_before(keys: Seq<Seq<char>>, ascending: bool, a: int, b: int) -> bool {
    key_before(keys[a], keys[b], ascending) || (keys[a] == keys[b] && a < b)
}

/// Whether `order` names each position below `n` exactly once.
pub open spec fn is_arrangement(order: Seq<int>, n: nat) -> bool {
    &&& order.len() == n
    &&& forall|i: int| 0 <= i < n ==> 0 <= #[trigger] order[i] < n
    &&& forall|i: int, j: int| 0 <= i < j < n ==> #[trigger] order[i] != #[trigger] order[j]
}

/// Whether `order` lists the positions of `keys` as a stable sort leaves
/// them: each position once, and each before all that have their place
/// after it.
pub open spec fn is_stable_order(order: Seq<int>, keys: Seq<Seq<char>>, ascending: bool) -> bool {
    &&& is_arrangement(order, keys.len())
    &&& forall|i: int, j: int|
        0 <= i < j < order.len() ==> goes_before(
            keys,
            ascending,
            #[trigger] order[i],
            #[trigger] order[j],
        )
}

/// No position has its place before itself.
pub proof fn lemma_goes_before_irreflexive(keys: Seq<Seq<char>>, ascending: bool, a: int)
    ensures
        !goes_before(keys, ascending, a, a),
{
    lemma_lex_lt_irreflexive(keys[a]);
}

/// Having one's place before another position is transitive.
pub proof fn lemma_goes_before_transitive(
    keys: Seq<Seq<char>>,
    ascending: bool,
    a: int,
    b: int,
    c: int,
)
    requires
        goes_before(keys, ascending, a, b),
        goes_before(keys, ascending, b, c),
    ensures
        goes_before(keys, ascending, a, c),
{
    if key_before(keys[a], keys[b], ascending) && key_before(keys[b], keys[c], ascending) {
        if ascending {
            lemma_lex_lt_transitive(keys[a], keys[b], keys[c]);
        } else {
            lemma_lex_lt_transitive(keys[c], keys[b], keys[a]);
        }
    }
}

/// Of an earlier and a later position, the earlier one has its place first
/// unless the key of the later one comes strictly before its own.
pub proof fn lemma_earlier_goes_first(keys: Seq<Seq<char>>, ascending: bool, a: int, b: int)
    requires
        a < b,
        !key_before(keys[b], keys[a], ascending),
    ensures
        goes_before(keys, ascending, a, b),
{
    if !key_before(keys[a], keys[b], ascending) {
        lemma_lex_lt_connected(keys[a], keys[b]);
    }
}

/// An arrangement of `n` positions names every position below `n`.
pub proof fn lemma_arrangement_covers(order: Seq<int>, n: nat, p: int)
    requires
        is_arrangement(order, n),
        0 <= p < n,
    ensures
        exists|i: int| 0 <= i < n && #[trigger] order[i] == p,
{
    let named = order.to_set();
    let all = set_int_range(0, n as int);
    assert(order.no_duplicates());
    order.unique_seq_to_set();
    lemma_int_range(0, n as int);
    assert(named.subset_of(all)) by {
        assert forall|x: int| named.contains(x) implies all.contains(x) by {
            let i = choose|i: int| 0 <= i < order.len() && order[i] == x;
            assert(0 <= order[i] < n);
        }
    }
    lemma_len_subset(named, all);
    lemma_subset_equality(named, all);
    assert(named.contains(p));
}

/// Two stable orders of the same keys agree up to every place.
proof fn lemma_stable_orders_agree(
    first: Seq<int>,
    second: Seq<int>,
    keys: Seq<Seq<char>>,
    ascending: bool,
    upto: int,
)
    requires
        is_stable_order(first, keys, ascending),
        is_stable_order(second, keys, ascending),
        0 <= upto < keys.len(),
    ensures
        forall|k: int| 0 <= k <= upto ==> first[k] == second[k],
    decreases upto,
{
    if upto > 0 {
        lemma_stable_orders_agree(first, second, keys, ascending, upto - 1);
    }
    let p = first[upto];
    let q = second[upto];
    if p != q {
        lemma_arrangement_covers(second, keys.len(), p);
        let m = choose|m: int| 0 <= m < keys.len() && #[trigger] second[m] == p;
        lemma_arrangement_covers(first, keys.len(), q);
        let w = choose|w: int| 0 <= w < keys.len() && #[trigger] first[w] == q;
        lemma_goes_before_transitive(keys, ascending, p, q, p);
        lemma_goes_before_irreflexive(keys, ascending, p);
    }
}

/// The keys allow one stable order only.
pub proof fn lemma_stable_order_is_unique(
    first: Seq<int>,
    second: Seq<int>,
    keys: Seq<Seq<char>>,
    ascending: bool,
)
    requires
        is_stable_order(first, keys, ascending),
        is_stable_order(second, keys, ascending),
    ensures
        first == second,
{
    if keys.len() > 0 {
        lemma_stable_orders_agree(first, second, keys, ascending, keys.len() - 1);
    }
}

/// The first place from `from` on in `order` whose key comes strictly after
/// the key at position `last`, or the length of `order` if there is none.
spec fn first_place_after(
    order: Seq<int>,
    keys: Seq<Seq<char>>,
    ascending: bool,
    last: int,
    from: int,
) -> int
    decreases order.len() - from,
{
    if from >= order.len() {
        order.len() as int
    } else if key_before(keys[last], keys[order[from]], ascending) {
        from
    } else {
        first_place_after(order, keys, ascending, last, from + 1)
    }
}

/// What `first_place_after` finds: no key before the place comes strictly
/// after the key at `last`, and the key at the place does.
proof fn lemma_first_place_after(
    order: Seq<int>,
    keys: Seq<Seq<char>>,
    ascending: bool,
    last: int,
    from: int,
)
    requires
        0 <= from <= order.len(),
    ensures
        from <= first_place_after(order, keys, ascending, last, from) <= order.len(),
        forall|k: int|
            from <= k < first_place_after(order, keys, ascending, last, from) ==> !key_before(
                keys[last],
                keys[#[trigger] order[k]],
                ascending,
            ),
        first_place_after(order, keys, ascending, last, from) < order.len() ==> key_before(
            keys[last],
            keys[order[first_place_after(order, keys, ascending, last, from)]],
            ascending,
        ),
    decreases order.len() - from,
{
    if from < order.len() && !key_before(keys[last], keys[order[from]], ascending) {
        lemma_first_place_after(order, keys, ascending, last, from + 1);
    }
}

/// Every run of keys has a stable order.
pub proof fn lemma_stable_order_exists(keys: Seq<Seq<char>>, ascending: bool)
    ensures
        exists|order: Seq<int>| is_stable_order(order, keys, ascending),
    decreases keys.len(),
{
    if keys.len() == 0 {
        assert(is_stable_order(Seq::<int>::empty(), keys, ascending));
    } else {
        let last = keys.len() - 1;
        let front = keys.drop_last();
        lemma_stable_order_exists(front, ascending);
        let before = choose|order: Seq<int>| is_stable_order(order, front, ascending);
        let at = first_place_after(before, keys, ascending, last, 0);
        lemma_first_place_after(before, keys, ascending, last, 0);
        let order = before.insert(at, last);
        assert forall|i: int, j: int| 0 <= i < j < order.len() implies goes_before(
            keys,
            ascending,
            #[trigger] order[i],
            #[trigger] order[j],
        ) by {
            if j == at {
                lemma_earlier_goes_first(keys, ascending, order[i], last);
            } else if i == at && j - 1 > at {
                lemma_goes_before_transitive(keys, ascending, last, before[at], before[j - 1]);
            }
        }
        assert forall|i: int, j: int| 0 <= i < j < keys.len() implies #[trigger] order[i]
            != #[trigger] order[j] by {
            lemma_goes_before_irreflexive(keys, ascending, order[i]);
        }
        assert(is_stable_order(order, keys, ascending));
    }
}

} // verus!
