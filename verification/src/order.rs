//! The order in which mempool entries are lined up: by identifier, and among
//! equal identifiers by arrival.

use crate::text::texts;
use vstd::prelude::*;
use vstd::relations::{sorted_by, total_ordering};

verus! {

/// The order of texts: position by position by code point, a proper prefix
/// before its extensions. This is how `str` orders.
pub open spec fn text_le(a: Seq<char>, b: Seq<char>) -> bool
    decreases a.len(),
{
    if a.len() == 0 {
        true
    } else if b.len() == 0 {
        false
    } else if a[0] == b[0] {
        text_le(a.drop_first(), b.drop_first())
    } else {
        (a[0] as int) < (b[0] as int)
    }
}

/// Every text is at most itself.
pub proof fn text_le_reflexive(a: Seq<char>)
    ensures
        text_le(a, a),
    decreases a.len(),
{
    if a.len() > 0 {
        text_le_reflexive(a.drop_first());
    }
}

/// Of two texts one is at most the other.
pub proof fn text_le_total(a: Seq<char>, b: Seq<char>)
    ensures
        text_le(a, b) || text_le(b, a),
    decreases a.len(),
{
    if a.len() == 0 {
        assert(text_le(a, b));
    } else if b.len() == 0 {
        assert(text_le(b, a));
    } else if a[0] == b[0] {
        text_le_total(a.drop_first(), b.drop_first());
    } else if (a[0] as int) < (b[0] as int) {
        assert(text_le(a, b));
    } else {
        assert((b[0] as int) < (a[0] as int));
        assert(text_le(b, a));
    }
}

/// Two texts that are each at most the other are the same text.
pub proof fn text_le_antisymmetric(a: Seq<char>, b: Seq<char>)
    requires
        text_le(a, b),
        text_le(b, a),
    ensures
        a == b,
    decreases a.len(),
{
    if a.len() == 0 || b.len() == 0 {
        assert(a =~= b);
    } else {
        text_le_antisymmetric(a.drop_first(), b.drop_first());
        assert(a =~= seq![a[0]] + a.drop_first());
        assert(b =~= seq![b[0]] + b.drop_first());
    }
}

/// The order of texts is transitive.
pub proof fn text_le_transitive(a: Seq<char>, b: Seq<char>, c: Seq<char>)
    requires
        text_le(a, b),
        text_le(b, c),
    ensures
        text_le(a, c),
    decreases a.len(),
{
    if a.len() > 0 && b.len() > 0 && c.len() > 0 {
        if a[0] == b[0] && b[0] == c[0] {
            text_le_transitive(a.drop_first(), b.drop_first(), c.drop_first());
        }
    }
}

/// Compares two texts with the ordering that std gives `str`: lexicographic
/// by byte values, which orders code points by their position in the code
/// charts.
#[verifier::external_body]
fn text_at_most(a: &str, b: &str) -> (r: bool)
    ensures
        r == text_le(a@, b@),
{
    a <= b
}

/// Whether the entry at `i` is lined up no later than the entry at `j`: by
/// identifier, and by position where the identifiers are the same.
pub open spec fn ranks_before(ids: Seq<Seq<char>>, i: int, j: int) -> bool {
    if ids[i] == ids[j] {
        i <= j
    } else {
        text_le(ids[i], ids[j])
    }
}

/// Whether `order` lists the positions `lo..hi` of `ids`, each once, lined up
/// by `ranks_before`.
pub open spec fn is_sorted_range(ids: Seq<Seq<char>>, order: Seq<usize>, lo: int, hi: int) -> bool {
    &&& order.len() == hi - lo
    &&& forall|k: int| 0 <= k < order.len() ==> lo <= #[trigger] order[k] < hi
    &&& forall|a: int, b: int|
        #![trigger order[a], order[b]]
        0 <= a < b < order.len() ==> order[a] != order[b] && ranks_before(
            ids,
            order[a] as int,
            order[b] as int,
        )
}

/// Whether `order` lists every position of `ids` once, lined up by
/// identifier, entries with the same identifier in the order they came.
pub open spec fn is_display_order(ids: Seq<Seq<char>>, order: Seq<usize>) -> bool {
    is_sorted_range(ids, order, 0, ids.len() as int)
}

/// The display order of `ids`. There is exactly one: see
/// `display_order_exists` and `display_order_is_unique`.
pub open spec fn display_order(ids: Seq<Seq<char>>) -> Seq<usize> {
    choose|order: Seq<usize>| is_display_order(ids, order)
}

/// The identifiers in the order given.
pub open spec fn picked(ids: Seq<Seq<char>>, order: Seq<usize>) -> Seq<Seq<char>> {
    Seq::new(order.len(), |k: int| ids[order[k] as int])
}

/// `ranks_before` is a total order on positions.
proof fn ranking_is_total_order(ids: Seq<Seq<char>>)
    ensures
        total_ordering(|i: usize, j: usize| ranks_before(ids, i as int, j as int)),
{
    let leq = |i: usize, j: usize| ranks_before(ids, i as int, j as int);
    assert forall|i: usize| #[trigger] leq(i, i) by {}
    assert forall|i: usize, j: usize| #[trigger] leq(i, j) && #[trigger] leq(j, i) implies i
        == j by {
        if ids[i as int] != ids[j as int] {
            text_le_antisymmetric(ids[i as int], ids[j as int]);
        }
    }
    assert forall|i: usize, j: usize, k: usize| #[trigger]
        leq(i, j) && #[trigger] leq(j, k) implies leq(i, k) by {
        ranking_is_transitive(ids, i as int, j as int, k as int);
    }
    assert forall|i: usize, j: usize| #[trigger] leq(i, j) || #[trigger] leq(j, i) by {
        text_le_total(ids[i as int], ids[j as int]);
    }
}

/// `ranks_before` is transitive.
proof fn ranking_is_transitive(ids: Seq<Seq<char>>, i: int, j: int, k: int)
    requires
        ranks_before(ids, i, j),
        ranks_before(ids, j, k),
    ensures
        ranks_before(ids, i, k),
{
    let (a, b, c) = (ids[i], ids[j], ids[k]);
    text_le_reflexive(a);
    text_le_reflexive(b);
    if a != b && b != c {
        text_le_transitive(a, b, c);
        if a == c {
            text_le_antisymmetric(a, b);
        }
    }
}

/// Whether `order` lists the position `i`.
pub open spec fn lists_position(order: Seq<usize>, i: int) -> bool {
    exists|k: int| 0 <= k < order.len() && #[trigger] order[k] == i
}

/// A list of `n` distinct positions below `n` holds every position below `n`.
proof fn distinct_positions_cover(order: Seq<usize>, n: int)
    requires
        order.len() == n,
        forall|k: int| 0 <= k < order.len() ==> 0 <= #[trigger] order[k] < n,
        forall|a: int, b: int|
            #![trigger order[a], order[b]]
            0 <= a < b < order.len() ==> order[a] != order[b],
    ensures
        forall|i: int| 0 <= i < n ==> #[trigger] lists_position(order, i),
{
    let ints = Seq::new(order.len(), |k: int| order[k] as int);
    assert(ints.no_duplicates()) by {
        assert forall|a: int, b: int| 0 <= a < ints.len() && 0 <= b < ints.len() && a
            != b implies ints[a] != ints[b] by {
            if a < b {
                assert(order[a] != order[b]);
            } else {
                assert(order[b] != order[a]);
            }
        }
    }
    ints.unique_seq_to_set();
    vstd::set_lib::lemma_int_range(0, n);
    let range = vstd::set_lib::set_int_range(0, n);
    vstd::seq_lib::seq_to_set_is_finite(ints);
    assert(ints.to_set().subset_of(range)) by {
        assert forall|x: int| ints.to_set().contains(x) implies range.contains(x) by {
            let k = choose|k: int| 0 <= k < ints.len() && ints[k] == x;
            assert(0 <= order[k] < n);
        }
    }
    vstd::set_lib::lemma_subset_equality(ints.to_set(), range);
    assert forall|i: int| 0 <= i < n implies #[trigger] lists_position(order, i) by {
        assert(range.contains(i));
        assert(ints.to_set().contains(i));
        let k = choose|k: int| 0 <= k < ints.len() && ints[k] == i;
        assert(order[k] == i);
    }
}

/// Two lists that each hold every position below `n` once hold the same
/// positions as often.
proof fn orders_hold_the_same(first: Seq<usize>, second: Seq<usize>, n: int)
    requires
        first.len() == n,
        second.len() == n,
        forall|k: int| 0 <= k < n ==> 0 <= #[trigger] first[k] < n,
        forall|k: int| 0 <= k < n ==> 0 <= #[trigger] second[k] < n,
        forall|a: int, b: int|
            #![trigger first[a], first[b]]
            0 <= a < b < n ==> first[a] != first[b],
        forall|a: int, b: int|
            #![trigger second[a], second[b]]
            0 <= a < b < n ==> second[a] != second[b],
    ensures
        first.to_multiset() == second.to_multiset(),
{
    distinct_positions_cover(first, n);
    distinct_positions_cover(second, n);
    assert(first.no_duplicates()) by {
        assert forall|a: int, b: int| 0 <= a < first.len() && 0 <= b < first.len() && a
            != b implies first[a] != first[b] by {
            if a < b {
                assert(first[a] != first[b]);
            } else {
                assert(first[b] != first[a]);
            }
        }
    }
    assert(second.no_duplicates()) by {
        assert forall|a: int, b: int| 0 <= a < second.len() && 0 <= b < second.len() && a
            != b implies second[a] != second[b] by {
            if a < b {
                assert(second[a] != second[b]);
            } else {
                assert(second[b] != second[a]);
            }
        }
    }
    first.lemma_multiset_has_no_duplicates();
    second.lemma_multiset_has_no_duplicates();
    assert forall|x: usize| first.to_multiset().count(x) == second.to_multiset().count(x) by {
        vstd::seq_lib::to_multiset_contains(first, x);
        vstd::seq_lib::to_multiset_contains(second, x);
        if 0 <= x < n {
            assert(lists_position(first, x as int));
            let k1 = choose|k: int| 0 <= k < first.len() && #[trigger] first[k] == x as int;
            assert(first[k1] == x);
            assert(first.contains(x));
            assert(lists_position(second, x as int));
            let k2 = choose|k: int| 0 <= k < second.len() && #[trigger] second[k] == x as int;
            assert(second[k2] == x);
            assert(second.contains(x));
        } else {
            if first.contains(x) {
                let k = choose|k: int| 0 <= k < first.len() && first[k] == x;
                assert(0 <= first[k] < n);
            }
            if second.contains(x) {
                let k = choose|k: int| 0 <= k < second.len() && second[k] == x;
                assert(0 <= second[k] < n);
            }
        }
    }
    assert(first.to_multiset() =~= second.to_multiset());
}

/// There is at most one display order.
pub proof fn display_order_is_unique(ids: Seq<Seq<char>>, first: Seq<usize>, second: Seq<usize>)
    requires
        is_display_order(ids, first),
        is_display_order(ids, second),
    ensures
        first == second,
{
    let leq = |i: usize, j: usize| ranks_before(ids, i as int, j as int);
    ranking_is_total_order(ids);
    orders_hold_the_same(first, second, ids.len() as int);
    assert(sorted_by(first, leq)) by {
        assert forall|a: int, b: int| 0 <= a < b < first.len() implies #[trigger] leq(
            first[a],
            first[b],
        ) by {
            assert(first[a] != first[b] && ranks_before(ids, first[a] as int, first[b] as int));
        }
    }
    assert(sorted_by(second, leq)) by {
        assert forall|a: int, b: int| 0 <= a < b < second.len() implies #[trigger] leq(
            second[a],
            second[b],
        ) by {
            assert(second[a] != second[b] && ranks_before(
                ids,
                second[a] as int,
                second[b] as int,
            ));
        }
    }
    vstd::seq_lib::lemma_sorted_unique(first, second, leq);
}

/// Where the last position of `ids` goes into the display order of the
/// positions before it: behind the last one whose identifier is at most `key`.
spec fn slot(ids: Seq<Seq<char>>, order: Seq<usize>, key: Seq<char>) -> int
    decreases order.len(),
{
    if order.len() == 0 {
        0
    } else if text_le(ids[order.last() as int], key) {
        order.len() as int
    } else {
        slot(ids, order.drop_last(), key)
    }
}

/// Entries lined up by `ranks_before` have their identifiers in order.
proof fn ranking_orders_texts(ids: Seq<Seq<char>>, i: int, j: int)
    requires
        ranks_before(ids, i, j),
    ensures
        text_le(ids[i], ids[j]),
{
    text_le_reflexive(ids[i]);
}

/// `slot` parts a lined-up list: identifiers at most `key` before it, the
/// others from it on.
proof fn slot_parts(ids: Seq<Seq<char>>, order: Seq<usize>, key: Seq<char>)
    requires
        forall|a: int, b: int|
            #![trigger order[a], order[b]]
            0 <= a < b < order.len() ==> ranks_before(ids, order[a] as int, order[b] as int),
    ensures
        0 <= slot(ids, order, key) <= order.len(),
        forall|k: int|
            0 <= k < slot(ids, order, key) ==> text_le(ids[#[trigger] order[k] as int], key),
        forall|k: int|
            slot(ids, order, key) <= k < order.len() ==> !text_le(
                ids[#[trigger] order[k] as int],
                key,
            ),
    decreases order.len(),
{
    if order.len() > 0 {
        let last = order.len() - 1;
        if text_le(ids[order.last() as int], key) {
            assert forall|k: int| 0 <= k < order.len() implies text_le(
                ids[#[trigger] order[k] as int],
                key,
            ) by {
                if k < last {
                    assert(ranks_before(ids, order[k] as int, order[last] as int));
                    ranking_orders_texts(ids, order[k] as int, order[last] as int);
                    text_le_transitive(ids[order[k] as int], ids[order[last] as int], key);
                }
            }
        } else {
            let init = order.drop_last();
            assert forall|a: int, b: int|
                #![trigger init[a], init[b]]
                0 <= a < b < init.len() implies ranks_before(
                ids,
                init[a] as int,
                init[b] as int,
            ) by {
                assert(ranks_before(ids, order[a] as int, order[b] as int));
            }
            slot_parts(ids, init, key);
            assert forall|k: int| 0 <= k < slot(ids, order, key) implies text_le(
                ids[#[trigger] order[k] as int],
                key,
            ) by {
                assert(init[k] == order[k]);
            }
            assert forall|k: int| slot(ids, order, key) <= k < order.len() implies !text_le(
                ids[#[trigger] order[k] as int],
                key,
            ) by {
                if k < last {
                    assert(init[k] == order[k]);
                }
            }
        }
    }
}

/// Every list of identifiers that a machine can index has a display order.
pub proof fn display_order_exists(ids: Seq<Seq<char>>)
    requires
        ids.len() <= usize::MAX,
    ensures
        is_display_order(ids, display_order(ids)),
    decreases ids.len(),
{
    if ids.len() == 0 {
        assert(is_display_order(ids, Seq::<usize>::empty()));
    } else {
        let init = ids.drop_last();
        display_order_exists(init);
        let prev = display_order(init);
        let n = ids.len() as int;
        let key = ids[n - 1];
        assert forall|a: int, b: int|
            #![trigger prev[a], prev[b]]
            0 <= a < b < prev.len() implies prev[a] != prev[b] && ranks_before(
            ids,
            prev[a] as int,
            prev[b] as int,
        ) by {
            assert(prev[a] != prev[b] && ranks_before(init, prev[a] as int, prev[b] as int));
            assert(init[prev[a] as int] == ids[prev[a] as int]);
            assert(init[prev[b] as int] == ids[prev[b] as int]);
        }
        slot_parts(ids, prev, key);
        let p = slot(ids, prev, key);
        let order = prev.insert(p, (n - 1) as usize);
        assert forall|k: int| 0 <= k < order.len() implies 0 <= #[trigger] order[k] < n by {
            if k < p {
                assert(order[k] == prev[k]);
            } else if k > p {
                assert(order[k] == prev[k - 1]);
            }
        }
        assert forall|a: int, b: int|
            #![trigger order[a], order[b]]
            0 <= a < b < order.len() implies order[a] != order[b] && ranks_before(
            ids,
            order[a] as int,
            order[b] as int,
        ) by {
            let from = |k: int| if k < p { k } else { k - 1 };
            if a != p && b != p {
                assert(order[a] == prev[from(a)]);
                assert(order[b] == prev[from(b)]);
                assert(prev[from(a)] != prev[from(b)] && ranks_before(
                    ids,
                    prev[from(a)] as int,
                    prev[from(b)] as int,
                ));
            } else if b == p {
                assert(order[a] == prev[a]);
                assert(0 <= prev[a] < n - 1);
                assert(text_le(ids[prev[a] as int], key));
            } else {
                assert(order[b] == prev[b - 1]);
                assert(0 <= prev[b - 1] < n - 1);
                assert(!text_le(ids[prev[b - 1] as int], key));
                text_le_reflexive(key);
                text_le_total(ids[prev[b - 1] as int], key);
            }
        }
        assert(is_display_order(ids, order));
    }
}

/// The identifiers taken in display order are the identifiers given, each as
/// often as it was given.
pub proof fn display_order_keeps_ids(ids: Seq<Seq<char>>, order: Seq<usize>)
    requires
        is_display_order(ids, order),
    ensures
        picked(ids, order).to_multiset() == ids.to_multiset(),
        sorted_by(picked(ids, order), |a: Seq<char>, b: Seq<char>| text_le(a, b)),
{
    assert forall|a: int, b: int| 0 <= a < b < order.len() implies text_le(
        #[trigger] picked(ids, order)[a],
        #[trigger] picked(ids, order)[b],
    ) by {
        assert(order[a] != order[b] && ranks_before(ids, order[a] as int, order[b] as int));
        ranking_orders_texts(ids, order[a] as int, order[b] as int);
    }
    assert forall|a: int, b: int|
        #![trigger order[a], order[b]]
        0 <= a < b < order.len() implies order[a] != order[b] by {
        assert(order[a] != order[b] && ranks_before(ids, order[a] as int, order[b] as int));
    }
    picked_keeps_all(ids, order);
}

/// Taking the identifiers at every position once, in any order, keeps each
/// as often as it was given.
proof fn picked_keeps_all(ids: Seq<Seq<char>>, order: Seq<usize>)
    requires
        order.len() == ids.len(),
        forall|k: int| 0 <= k < order.len() ==> 0 <= #[trigger] order[k] < ids.len(),
        forall|a: int, b: int|
            #![trigger order[a], order[b]]
            0 <= a < b < order.len() ==> order[a] != order[b],
    ensures
        picked(ids, order).to_multiset() == ids.to_multiset(),
    decreases ids.len(),
{
    let n = ids.len() as int;
    if n == 0 {
        assert(picked(ids, order) =~= ids);
    } else {
        distinct_positions_cover(order, n);
        assert(lists_position(order, n - 1));
        let p = choose|k: int| 0 <= k < order.len() && #[trigger] order[k] == n - 1;
        let init = ids.drop_last();
        let rest = order.remove(p);
        assert forall|k: int| 0 <= k < rest.len() implies 0 <= #[trigger] rest[k] < init.len() by {
            if k < p {
                assert(rest[k] == order[k]);
                assert(order[k] != order[p]);
            } else {
                assert(rest[k] == order[k + 1]);
                assert(order[p] != order[k + 1]);
            }
        }
        assert forall|a: int, b: int|
            #![trigger rest[a], rest[b]]
            0 <= a < b < rest.len() implies rest[a] != rest[b] by {
            let to = |k: int| if k < p { k } else { k + 1 };
            assert(rest[a] == order[to(a)]);
            assert(rest[b] == order[to(b)]);
            assert(order[to(a)] != order[to(b)]);
        }
        picked_keeps_all(init, rest);
        let all = picked(ids, order);
        assert(picked(init, rest) =~= all.remove(p)) by {
            assert forall|k: int| 0 <= k < rest.len() implies picked(init, rest)[k] == all.remove(
                p,
            )[k] by {
                assert(0 <= rest[k] < init.len());
            }
        }
        vstd::seq_lib::to_multiset_remove(all, p);
        vstd::seq_lib::to_multiset_build(init, ids.last());
        assert(ids =~= init.push(ids.last()));
        assert(all[p] == ids.last());
        vstd::seq_lib::to_multiset_contains(all, ids.last());
        assert(all.to_multiset().count(ids.last()) > 0);
        assert(all.to_multiset() =~= all.to_multiset().remove(ids.last()).insert(ids.last()));
    }
}

/// Two lists that hold the same identifiers as often have the same
/// identifiers in display order, however each list was arranged.
pub proof fn display_order_ignores_arrival(first: Seq<Seq<char>>, second: Seq<Seq<char>>)
    requires
        first.len() <= usize::MAX,
        first.to_multiset() == second.to_multiset(),
    ensures
        picked(first, display_order(first)) == picked(second, display_order(second)),
{
    vstd::seq_lib::to_multiset_len(first);
    vstd::seq_lib::to_multiset_len(second);
    display_order_exists(first);
    display_order_exists(second);
    display_order_keeps_ids(first, display_order(first));
    display_order_keeps_ids(second, display_order(second));
    let leq = |a: Seq<char>, b: Seq<char>| text_le(a, b);
    assert(total_ordering(leq)) by {
        assert forall|a: Seq<char>| #[trigger] leq(a, a) by {
            text_le_reflexive(a);
        }
        assert forall|a: Seq<char>, b: Seq<char>| #[trigger] leq(a, b) && #[trigger] leq(
            b,
            a,
        ) implies a == b by {
            text_le_antisymmetric(a, b);
        }
        assert forall|a: Seq<char>, b: Seq<char>, c: Seq<char>| #[trigger]
            leq(a, b) && #[trigger] leq(b, c) implies leq(a, c) by {
            text_le_transitive(a, b, c);
        }
        assert forall|a: Seq<char>, b: Seq<char>| #[trigger] leq(a, b) || #[trigger] leq(b, a) by {
            text_le_total(a, b);
        }
    }
    vstd::seq_lib::lemma_sorted_unique(
        picked(first, display_order(first)),
        picked(second, display_order(second)),
        leq,
    );
}

/// Merges the display orders of two neighbouring ranges of positions.
fn merge_ranges(
    ids: &Vec<String>,
    left: &Vec<usize>,
    right: &Vec<usize>,
    lo: usize,
    mid: usize,
    hi: usize,
) -> (out: Vec<usize>)
    requires
        lo <= mid <= hi <= ids.len(),
        is_sorted_range(texts(ids@), left@, lo as int, mid as int),
        is_sorted_range(texts(ids@), right@, mid as int, hi as int),
    ensures
        is_sorted_range(texts(ids@), out@, lo as int, hi as int),
{
    let ghost t = texts(ids@);
    let mut out: Vec<usize> = Vec::new();
    let mut a: usize = 0;
    let mut b: usize = 0;
    while a < left.len() || b < right.len()
        invariant
            t == texts(ids@),
            lo <= mid <= hi <= ids.len(),
            is_sorted_range(t, left@, lo as int, mid as int),
            is_sorted_range(t, right@, mid as int, hi as int),
            a <= left.len(),
            b <= right.len(),
            out.len() == a + b,
            forall|k: int| 0 <= k < out.len() ==> lo <= #[trigger] out[k] < hi,
            forall|x: int, y: int|
                #![trigger out[x], out[y]]
                0 <= x < y < out.len() ==> out[x] != out[y] && ranks_before(
                    t,
                    out[x] as int,
                    out[y] as int,
                ),
            forall|k: int, i: int|
                #![trigger out[k], left[i]]
                0 <= k < out.len() && a <= i < left.len() ==> out[k] != left[i] && ranks_before(
                    t,
                    out[k] as int,
                    left[i] as int,
                ),
            forall|k: int, j: int|
                #![trigger out[k], right[j]]
                0 <= k < out.len() && b <= j < right.len() ==> out[k] != right[j] && ranks_before(
                    t,
                    out[k] as int,
                    right[j] as int,
                ),
        decreases left.len() - a + right.len() - b,
    {
        let take_left = if a == left.len() {
            false
        } else if b == right.len() {
            true
        } else {
            assert(lo <= left[a as int] < mid);
            assert(mid <= right[b as int] < hi);
            text_at_most(ids[left[a]].as_str(), ids[right[b]].as_str())
        };
        let ghost before = out@;
        if take_left {
            let x = left[a];
            assert(lo <= left[a as int] < mid);
            out.push(x);
            proof {
                assert forall|k: int, i: int|
                    #![trigger out[k], left[i]]
                    0 <= k < out.len() && a + 1 <= i < left.len() implies out[k] != left[i]
                    && ranks_before(t, out[k] as int, left[i] as int) by {
                    if k < before.len() {
                        assert(out[k] == before[k]);
                        assert(before[k] != left[i] && ranks_before(
                            t,
                            before[k] as int,
                            left[i] as int,
                        ));
                    } else {
                        assert(left[a as int] != left[i] && ranks_before(
                            t,
                            left[a as int] as int,
                            left[i] as int,
                        ));
                    }
                }
                assert forall|k: int, j: int|
                    #![trigger out[k], right[j]]
                    0 <= k < out.len() && b <= j < right.len() implies out[k] != right[j]
                    && ranks_before(t, out[k] as int, right[j] as int) by {
                    if k < before.len() {
                        assert(out[k] == before[k]);
                        assert(before[k] != right[j] && ranks_before(
                            t,
                            before[k] as int,
                            right[j] as int,
                        ));
                    } else {
                        assert(mid <= right[j] < hi);
                        assert(mid <= right[b as int] < hi);
                        if j > b {
                            assert(right[b as int] != right[j] && ranks_before(
                                t,
                                right[b as int] as int,
                                right[j] as int,
                            ));
                            ranking_orders_texts(t, right[b as int] as int, right[j] as int);
                            text_le_transitive(
                                t[x as int],
                                t[right[b as int] as int],
                                t[right[j] as int],
                            );
                        }
                    }
                }
                assert forall|p: int, q: int|
                    #![trigger out[p], out[q]]
                    0 <= p < q < out.len() implies out[p] != out[q] && ranks_before(
                    t,
                    out[p] as int,
                    out[q] as int,
                ) by {
                    assert(out[p] == before[p]);
                    if q < before.len() {
                        assert(out[q] == before[q]);
                        assert(before[p] != before[q] && ranks_before(
                            t,
                            before[p] as int,
                            before[q] as int,
                        ));
                    } else {
                        assert(before[p] != left[a as int] && ranks_before(
                            t,
                            before[p] as int,
                            left[a as int] as int,
                        ));
                    }
                }
            }
            a += 1;
        } else {
            let y = right[b];
            assert(mid <= right[b as int] < hi);
            out.push(y);
            proof {
                assert forall|k: int, i: int|
                    #![trigger out[k], left[i]]
                    0 <= k < out.len() && a <= i < left.len() implies out[k] != left[i]
                    && ranks_before(t, out[k] as int, left[i] as int) by {
                    if k < before.len() {
                        assert(out[k] == before[k]);
                        assert(before[k] != left[i] && ranks_before(
                            t,
                            before[k] as int,
                            left[i] as int,
                        ));
                    } else {
                        assert(lo <= left[i] < mid);
                        assert(lo <= left[a as int] < mid);
                        let first = t[left[a as int] as int];
                        let here = t[left[i] as int];
                        assert(!text_le(first, t[y as int]));
                        text_le_total(first, t[y as int]);
                        if i > a {
                            assert(left[a as int] != left[i] && ranks_before(
                                t,
                                left[a as int] as int,
                                left[i] as int,
                            ));
                            ranking_orders_texts(t, left[a as int] as int, left[i] as int);
                        } else {
                            text_le_reflexive(first);
                        }
                        text_le_transitive(t[y as int], first, here);
                    }
                }
                assert forall|k: int, j: int|
                    #![trigger out[k], right[j]]
                    0 <= k < out.len() && b + 1 <= j < right.len() implies out[k] != right[j]
                    && ranks_before(t, out[k] as int, right[j] as int) by {
                    if k < before.len() {
                        assert(out[k] == before[k]);
                        assert(before[k] != right[j] && ranks_before(
                            t,
                            before[k] as int,
                            right[j] as int,
                        ));
                    } else {
                        assert(right[b as int] != right[j] && ranks_before(
                            t,
                            right[b as int] as int,
                            right[j] as int,
                        ));
                    }
                }
                assert forall|p: int, q: int|
                    #![trigger out[p], out[q]]
                    0 <= p < q < out.len() implies out[p] != out[q] && ranks_before(
                    t,
                    out[p] as int,
                    out[q] as int,
                ) by {
                    assert(out[p] == before[p]);
                    if q < before.len() {
                        assert(out[q] == before[q]);
                        assert(before[p] != before[q] && ranks_before(
                            t,
                            before[p] as int,
                            before[q] as int,
                        ));
                    } else {
                        assert(before[p] != right[b as int] && ranks_before(
                            t,
                            before[p] as int,
                            right[b as int] as int,
                        ));
                    }
                }
            }
            b += 1;
        }
    }
    out
}

/// The display order of the positions `lo..hi`, by merge sort.
fn sort_range(ids: &Vec<String>, lo: usize, hi: usize) -> (order: Vec<usize>)
    requires
        lo <= hi <= ids.len(),
    ensures
        is_sorted_range(texts(ids@), order@, lo as int, hi as int),
    decreases hi - lo,
{
    if hi - lo == 0 {
        Vec::new()
    } else if hi - lo == 1 {
        let mut order: Vec<usize> = Vec::new();
        order.push(lo);
        order
    } else {
        let mid = lo + (hi - lo) / 2;
        let left = sort_range(ids, lo, mid);
        let right = sort_range(ids, mid, hi);
        merge_ranges(ids, &left, &right, lo, mid, hi)
    }
}

/// Lines up the positions of `ids` for display: by identifier, entries with
/// the same identifier in the order they came.
pub fn sorted_positions(ids: &Vec<String>) -> (order: Vec<usize>)
    ensures
        is_display_order(texts(ids@), order@),
        order@ == display_order(texts(ids@)),
{
    let order = sort_range(ids, 0, ids.len());
    proof {
        let t = texts(ids@);
        assert(is_display_order(t, order@));
        display_order_is_unique(t, order@, display_order(t));
    }
    order
}

} // verus!
