//! A stable order of positions by their sort keys, found by merging.

use vstd::prelude::*;
use crate::order::{
    key_before, key_precedes, key_tie, lemma_key_before_strict, lemma_key_before_transitive,
    lemma_key_tie_is_equality, KeyView, SortKey,
};

verus! {

/// The keys of a vector as mathematical values.
pub open spec fn key_views(keys: Seq<SortKey>) -> Seq<KeyView> {
    Seq::new(keys.len(), |i: int| keys[i]@)
}

/// The positions that an order vector holds, as integers.
pub open spec fn positions(order: Seq<usize>) -> Seq<int> {
    Seq::new(order.len(), |i: int| order[i] as int)
}

/// Position `x` comes out before position `y`: its key stands before the
/// other, or the two keys tie and `x` was met first.
pub open spec fn comes_before(keys: Seq<KeyView>, x: int, y: int) -> bool {
    key_before(keys[x], keys[y]) || (!key_before(keys[y], keys[x]) && x < y)
}

/// `order` is the stable sorted order of `keys`: it names every position
/// once, no key stands before one that is named earlier, and keys that tie
/// are named in the order in which they were met.
pub open spec fn is_stable_order(keys: Seq<KeyView>, order: Seq<int>) -> bool {
    &&& order.len() == keys.len()
    &&& forall|a: int| 0 <= a < order.len() ==> 0 <= #[trigger] order[a] < keys.len()
    &&& forall|x: int| 0 <= x < keys.len() ==> #[trigger] order.contains(x)
    &&& forall|a: int, b: int|
        #![trigger order[a], order[b]]
        0 <= a < b < order.len() ==> {
            &&& order[a] != order[b]
            &&& !key_before(keys[order[b]], keys[order[a]])
            &&& key_tie(keys[order[a]], keys[order[b]]) ==> order[a] < order[b]
        }
}

/// Coming before is transitive.
pub proof fn lemma_comes_before_transitive(keys: Seq<KeyView>, x: int, y: int, z: int)
    requires
        comes_before(keys, x, y),
        comes_before(keys, y, z),
    ensures
        comes_before(keys, x, z),
{
    let kx = keys[x];
    let ky = keys[y];
    let kz = keys[z];
    lemma_key_tie_is_equality(kx, ky);
    lemma_key_tie_is_equality(ky, kz);
    lemma_key_before_strict(kx, kz);
    if key_before(kx, ky) && key_before(ky, kz) {
        lemma_key_before_transitive(kx, ky, kz);
    }
}

/// Of two different positions exactly one comes before the other.
pub proof fn lemma_comes_before_total(keys: Seq<KeyView>, x: int, y: int)
    ensures
        !comes_before(keys, x, x),
        !(comes_before(keys, x, y) && comes_before(keys, y, x)),
        x != y ==> comes_before(keys, x, y) || comes_before(keys, y, x),
{
    lemma_key_before_strict(keys[x], keys[y]);
    lemma_key_before_strict(keys[x], keys[x]);
}

/// In a stable order each position named earlier comes before each one
/// named later.
pub proof fn lemma_stable_order_comes_before(keys: Seq<KeyView>, order: Seq<int>, a: int, b: int)
    requires
        is_stable_order(keys, order),
        0 <= a < b < order.len(),
    ensures
        comes_before(keys, order[a], order[b]),
{
    assert(order[a] != order[b]);
}

/// Two stable orders of the same keys name the same positions in their
/// first `n` places.
proof fn lemma_orders_agree(keys: Seq<KeyView>, p: Seq<int>, q: Seq<int>, n: int)
    requires
        is_stable_order(keys, p),
        is_stable_order(keys, q),
        0 <= n <= keys.len(),
    ensures
        forall|c: int| 0 <= c < n ==> p[c] == q[c],
    decreases n,
{
    if n > 0 {
        lemma_orders_agree(keys, p, q, n - 1);
        let a = n - 1;
        let x = p[a];
        let y = q[a];
        if x != y {
            lemma_comes_before_total(keys, x, y);
            if comes_before(keys, x, y) {
                assert(q.contains(x));
                let b = choose|b: int| 0 <= b < q.len() && q[b] == x;
                if b < a {
                    assert(p[b] == q[b]);
                    assert(p[b] != p[a]);
                } else {
                    lemma_stable_order_comes_before(keys, q, a, b);
                }
            } else {
                assert(p.contains(y));
                let b = choose|b: int| 0 <= b < p.len() && p[b] == y;
                if b < a {
                    assert(p[b] == q[b]);
                    assert(q[b] != q[a]);
                } else {
                    lemma_stable_order_comes_before(keys, p, a, b);
                }
            }
            assert(false);
        }
    }
}

/// Given keys have one stable order and no other.
pub proof fn lemma_stable_order_unique(keys: Seq<KeyView>, p: Seq<int>, q: Seq<int>)
    requires
        is_stable_order(keys, p),
        is_stable_order(keys, q),
    ensures
        p == q,
{
    lemma_orders_agree(keys, p, q, keys.len() as int);
    assert(p =~= q);
}

/// Each position named earlier comes before each one named later.
spec fn merged(keys: Seq<KeyView>, order: Seq<usize>) -> bool {
    forall|a: int, b: int|
        #![trigger order[a], order[b]]
        0 <= a < b < order.len() ==> comes_before(keys, order[a] as int, order[b] as int)
}

/// `order` names the positions from `lo` up to `hi`, and no others.
spec fn spans(order: Seq<usize>, lo: int, hi: int) -> bool {
    &&& order.len() == hi - lo
    &&& forall|a: int| 0 <= a < order.len() ==> lo <= #[trigger] order[a] < hi
    &&& forall|x: usize| lo <= x < hi ==> #[trigger] order.contains(x)
}

/// Merges the orders of two neighbouring ranges into the order of both.
fn merge(
    keys: &Vec<SortKey>,
    left: &Vec<usize>,
    right: &Vec<usize>,
    Ghost(lo): Ghost<int>,
    Ghost(mid): Ghost<int>,
    Ghost(hi): Ghost<int>,
) -> (out: Vec<usize>)
    requires
        0 <= lo <= mid <= hi <= keys.len(),
        spans(left@, lo, mid),
        spans(right@, mid, hi),
        merged(key_views(keys@), left@),
        merged(key_views(keys@), right@),
    ensures
        spans(out@, lo, hi),
        merged(key_views(keys@), out@),
{
    let ghost kv = key_views(keys@);
    let mut out: Vec<usize> = Vec::new();
    let mut i: usize = 0;
    let mut j: usize = 0;
    while i < left.len() || j < right.len()
        invariant
            0 <= lo <= mid <= hi <= keys.len(),
            kv == key_views(keys@),
            spans(left@, lo, mid),
            spans(right@, mid, hi),
            merged(kv, left@),
            merged(kv, right@),
            i <= left.len(),
            j <= right.len(),
            out.len() == i + j,
            forall|a: int| 0 <= a < out.len() ==> lo <= #[trigger] out[a] < hi,
            forall|a: int| 0 <= a < i ==> out@.contains(#[trigger] left[a]),
            forall|b: int| 0 <= b < j ==> out@.contains(#[trigger] right[b]),
            merged(kv, out@),
            out.len() > 0 && i < left.len() ==> comes_before(
                kv,
                out[out.len() - 1] as int,
                left[i as int] as int,
            ),
            out.len() > 0 && j < right.len() ==> comes_before(
                kv,
                out[out.len() - 1] as int,
                right[j as int] as int,
            ),
        decreases left.len() - i + (right.len() - j),
    {
        let take_left = if j >= right.len() {
            true
        } else if i >= left.len() {
            false
        } else {
            !key_precedes(&keys[right[j]], &keys[left[i]])
        };
        let next = if take_left {
            left[i]
        } else {
            right[j]
        };
        let ghost before = out@;
        proof {
            assert forall|a: int| 0 <= a < before.len() implies comes_before(
                kv,
                before[a] as int,
                next as int,
            ) by {
                let last = before[before.len() - 1];
                if a < before.len() - 1 {
                    lemma_comes_before_transitive(kv, before[a] as int, last as int, next as int);
                }
            }
        }
        out.push(next);
        proof {
            assert(out@[before.len() as int] == next);
            assert forall|a: int| 0 <= a < i implies out@.contains(#[trigger] left[a]) by {
                let w = choose|w: int| 0 <= w < before.len() && before[w] == left[a];
                assert(out@[w] == left[a]);
            }
            assert forall|b: int| 0 <= b < j implies out@.contains(#[trigger] right[b]) by {
                let w = choose|w: int| 0 <= w < before.len() && before[w] == right[b];
                assert(out@[w] == right[b]);
            }
        }
        if take_left {
            i += 1;
        } else {
            j += 1;
        }
    }
    proof {
        assert forall|x: usize| lo <= x < hi implies #[trigger] out@.contains(x) by {
            if x < mid {
                assert(left@.contains(x));
                let a = choose|a: int| 0 <= a < left@.len() && left@[a] == x;
                assert(out@.contains(left[a]));
            } else {
                assert(right@.contains(x));
                let b = choose|b: int| 0 <= b < right@.len() && right@[b] == x;
                assert(out@.contains(right[b]));
            }
        }
    }
    out
}

/// The stable sorted order of the positions from `lo` up to `hi`.
fn sort_range(keys: &Vec<SortKey>, lo: usize, hi: usize) -> (order: Vec<usize>)
    requires
        lo <= hi <= keys.len(),
    ensures
        spans(order@, lo as int, hi as int),
        merged(key_views(keys@), order@),
    decreases hi - lo,
{
    if hi - lo <= 1 {
        let mut order: Vec<usize> = Vec::new();
        if lo < hi {
            order.push(lo);
            assert(order@[0] == lo);
        }
        order
    } else {
        let mid = lo + (hi - lo) / 2;
        let left = sort_range(keys, lo, mid);
        let right = sort_range(keys, mid, hi);
        merge(keys, &left, &right, Ghost(lo as int), Ghost(mid as int), Ghost(hi as int))
    }
}

/// The order in which a listing shows the entries that have these keys:
/// `order[a]` is the position, among the keys, of the entry shown in place
/// `a`.
pub fn stable_order(keys: &Vec<SortKey>) -> (order: Vec<usize>)
    ensures
        is_stable_order(key_views(keys@), positions(order@)),
{
    let order = sort_range(keys, 0, keys.len());
    proof {
        let kv = key_views(keys@);
        let p = positions(order@);
        assert forall|x: int| 0 <= x < kv.len() implies #[trigger] p.contains(x) by {
            assert(order@.contains(x as usize));
            let w = choose|w: int| 0 <= w < order@.len() && order@[w] == x as usize;
            assert(p[w] == x);
        }
        assert forall|a: int, b: int| 0 <= a < b < p.len() implies {
            &&& #[trigger] p[a] != #[trigger] p[b]
            &&& !key_before(kv[p[b]], kv[p[a]])
            &&& key_tie(kv[p[a]], kv[p[b]]) ==> p[a] < p[b]
        } by {
            assert(comes_before(kv, order@[a] as int, order@[b] as int));
            lemma_key_before_strict(kv[p[a]], kv[p[b]]);
        }
    }
    order
}

} // verus!
