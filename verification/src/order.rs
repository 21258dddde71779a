//! Ordering of samples by presentation time when tracks use different
//! timescales: a timestamp `t` in timescale `s` stands for `t / s` seconds,
//! and two of them are compared exactly by cross-multiplication.
use vstd::prelude::*;

verus! {

/// A timestamp together with the timescale (ticks per second) it counts in.
pub type Timed = (u64, u32);

/// `a` lies strictly before `b` in time.
pub open spec fn time_lt(a: Timed, b: Timed) -> bool {
    (a.0 as int) * (b.1 as int) < (b.0 as int) * (a.1 as int)
}

/// `a` and `b` denote the same instant.
pub open spec fn time_eq(a: Timed, b: Timed) -> bool {
    (a.0 as int) * (b.1 as int) == (b.0 as int) * (a.1 as int)
}

/// Entry `i` of `keys` comes before entry `j` in the merged order: earlier
/// in time, or at the same instant and earlier in the input.
pub open spec fn comes_before(keys: Seq<Timed>, i: int, j: int) -> bool {
    time_lt(keys[i], keys[j]) || (time_eq(keys[i], keys[j]) && i < j)
}

/// Every timescale is positive.
pub open spec fn positive_timescales(keys: Seq<Timed>) -> bool {
    forall|i: int| 0 <= i < keys.len() ==> #[trigger] keys[i].1 > 0
}

/// `order` lists each index of `keys` exactly once.
pub open spec fn is_permutation_of_indices(order: Seq<usize>, n: nat) -> bool {
    &&& order.len() == n
    &&& forall|p: int| 0 <= p < order.len() ==> #[trigger] order[p] < n
    &&& forall|p: int, q: int| 0 <= p < q < order.len() ==> order[p] != order[q]
}

/// `order` is increasing under `comes_before`.
pub open spec fn is_time_ordered(keys: Seq<Timed>, order: Seq<usize>) -> bool {
    forall|p: int, q: int|
        0 <= p < q < order.len() ==> comes_before(keys, #[trigger] order[p] as int, #[trigger] order[q] as int)
}

proof fn lemma_mul_lt_cancel(x: int, y: int, k: int)
    requires
        k > 0,
        x * k < y * k,
    ensures
        x < y,
{
    assert(x < y) by (nonlinear_arith)
        requires
            k > 0,
            x * k < y * k,
    ;
}

proof fn lemma_mul_le_cancel(x: int, y: int, k: int)
    requires
        k > 0,
        x * k <= y * k,
    ensures
        x <= y,
{
    assert(x <= y) by (nonlinear_arith)
        requires
            k > 0,
            x * k <= y * k,
    ;
}

proof fn lemma_cross_mul_trans(a: Timed, b: Timed, c: Timed)
    requires
        a.1 > 0,
        b.1 > 0,
        c.1 > 0,
    ensures
        time_lt(a, b) && time_lt(b, c) ==> time_lt(a, c),
        time_lt(a, b) && time_eq(b, c) ==> time_lt(a, c),
        time_eq(a, b) && time_lt(b, c) ==> time_lt(a, c),
        time_eq(a, b) && time_eq(b, c) ==> time_eq(a, c),
{
    let (at, as_) = (a.0 as int, a.1 as int);
    let (bt, bs) = (b.0 as int, b.1 as int);
    let (ct, cs) = (c.0 as int, c.1 as int);
    // Scale both comparisons to the common factor as * bs * cs.
    assert((at * bs) * cs == (at * cs) * bs) by (nonlinear_arith);
    assert((bt * as_) * cs == (bt * cs) * as_) by (nonlinear_arith);
    assert((ct * bs) * as_ == (ct * as_) * bs) by (nonlinear_arith);
    assert(at * bs <= bt * as_ ==> (at * bs) * cs <= (bt * as_) * cs) by (nonlinear_arith)
        requires
            cs > 0,
    ;
    assert(at * bs < bt * as_ ==> (at * bs) * cs < (bt * as_) * cs) by (nonlinear_arith)
        requires
            cs > 0,
    ;
    assert(at * bs == bt * as_ ==> (at * bs) * cs == (bt * as_) * cs);
    assert(bt * cs <= ct * bs ==> (bt * cs) * as_ <= (ct * bs) * as_) by (nonlinear_arith)
        requires
            as_ > 0,
    ;
    assert(bt * cs < ct * bs ==> (bt * cs) * as_ < (ct * bs) * as_) by (nonlinear_arith)
        requires
            as_ > 0,
    ;
    assert(bt * cs == ct * bs ==> (bt * cs) * as_ == (ct * bs) * as_);
    if time_lt(a, b) && time_lt(b, c) || time_lt(a, b) && time_eq(b, c) || time_eq(a, b) && time_lt(
        b,
        c,
    ) {
        lemma_mul_lt_cancel(at * cs, ct * as_, bs);
    }
    if time_eq(a, b) && time_eq(b, c) {
        lemma_mul_le_cancel(at * cs, ct * as_, bs);
        lemma_mul_le_cancel(ct * as_, at * cs, bs);
    }
}

/// `comes_before` is a strict total order on the indices of `keys` when
/// all timescales are positive.
proof fn lemma_comes_before_order(keys: Seq<Timed>, i: int, j: int, k: int)
    requires
        positive_timescales(keys),
        0 <= i < keys.len(),
        0 <= j < keys.len(),
        0 <= k < keys.len(),
    ensures
        !comes_before(keys, i, i),
        i != j ==> (comes_before(keys, i, j) || comes_before(keys, j, i)),
        comes_before(keys, i, j) ==> !comes_before(keys, j, i),
        comes_before(keys, i, j) && comes_before(keys, j, k) ==> comes_before(keys, i, k),
{
    let a = keys[i];
    let b = keys[j];
    let c = keys[k];
    assert(a.1 > 0 && b.1 > 0 && c.1 > 0);
    lemma_cross_mul_trans(a, b, c);
}

/// Whether `a` lies at or before `b` in time.
fn cross_mul_le(a: Timed, b: Timed) -> (r: bool)
    ensures
        r == !time_lt(b, a),
{
    proof {
        assert((a.0 as int) * (b.1 as int) <= (u64::MAX as int) * (u32::MAX as int))
            by (nonlinear_arith)
            requires
                a.0 <= u64::MAX,
                b.1 <= u32::MAX,
        ;
        assert((b.0 as int) * (a.1 as int) <= (u64::MAX as int) * (u32::MAX as int))
            by (nonlinear_arith)
            requires
                b.0 <= u64::MAX,
                a.1 <= u32::MAX,
        ;
        assert((a.0 as u128) * (b.1 as u128) == (a.0 as int) * (b.1 as int)) by (nonlinear_arith)
            requires
                a.0 <= u64::MAX,
                b.1 <= u32::MAX,
        ;
        assert((b.0 as u128) * (a.1 as u128) == (b.0 as int) * (a.1 as int)) by (nonlinear_arith)
            requires
                b.0 <= u64::MAX,
                a.1 <= u32::MAX,
        ;
    }
    let x: u128 = (a.0 as u128) * (b.1 as u128);
    let y: u128 = (b.0 as u128) * (a.1 as u128);
    x <= y
}

/// Indices of `keys` in merged time order: by instant (`t / s`), entries at
/// the same instant in their input order. This is what a stable sort of the
/// entries by instant produces.
pub fn time_order(keys: &Vec<Timed>) -> (order: Vec<usize>)
    requires
        positive_timescales(keys@),
    ensures
        is_permutation_of_indices(order@, keys@.len()),
        is_time_ordered(keys@, order@),
{
    let n = keys.len();
    let mut order: Vec<usize> = Vec::new();
    let mut i: usize = 0;
    while i < n
        invariant
            n == keys@.len(),
            i <= n,
            positive_timescales(keys@),
            is_permutation_of_indices(order@, i as nat),
            is_time_ordered(keys@, order@),
        decreases n - i,
    {
        let ki = keys[i];
        let mut pos = order.len();
        while pos > 0
            invariant
                n == keys@.len(),
                i < n,
                pos <= order@.len() == i,
                ki == keys@[i as int],
                positive_timescales(keys@),
                is_permutation_of_indices(order@, i as nat),
                is_time_ordered(keys@, order@),
                forall|q: int| pos <= q < order@.len() ==> time_lt(ki, #[trigger] keys@[order@[q] as int]),
            ensures
                pos <= order@.len(),
                pos > 0 ==> !time_lt(ki, keys@[order@[pos - 1] as int]),
                forall|q: int| pos <= q < order@.len() ==> time_lt(ki, #[trigger] keys@[order@[q] as int]),
            decreases pos,
        {
            let kj = keys[order[pos - 1]];
            if cross_mul_le(kj, ki) {
                break;
            }
            pos = pos - 1;
        }
        let ghost old_order = order@;
        proof {
            assert forall|p: int| 0 <= p < pos implies comes_before(keys@, #[trigger] old_order[p] as int, i as int) by {
                let last = old_order[pos - 1] as int;
                assert(old_order[p] < i);
                lemma_comes_before_order(keys@, old_order[p] as int, last, i as int);
                if p < pos - 1 {
                    assert(comes_before(keys@, old_order[p] as int, last));
                }
                assert(comes_before(keys@, last, i as int));
            }
        }
        order.insert(pos, i);
        proof {
            let new_order = order@;
            assert(new_order =~= old_order.insert(pos as int, i));
            assert forall|p: int| 0 <= p < new_order.len() implies #[trigger] new_order[p] < i + 1 by {
                if p < pos {
                    assert(new_order[p] == old_order[p]);
                } else if p > pos {
                    assert(new_order[p] == old_order[p - 1]);
                }
            }
            assert forall|p: int, q: int| 0 <= p < q < new_order.len() implies new_order[p]
                != new_order[q] by {
                if p < pos && q < pos {
                    assert(new_order[p] == old_order[p]);
                    assert(new_order[q] == old_order[q]);
                } else if p < pos && q == pos {
                    assert(new_order[p] == old_order[p]);
                } else if p < pos && q > pos {
                    assert(new_order[p] == old_order[p]);
                    assert(new_order[q] == old_order[q - 1]);
                } else if p == pos {
                    assert(new_order[q] == old_order[q - 1]);
                } else {
                    assert(new_order[p] == old_order[p - 1]);
                    assert(new_order[q] == old_order[q - 1]);
                }
            }
            assert forall|p: int, q: int| 0 <= p < q < new_order.len() implies comes_before(
                keys@,
                #[trigger] new_order[p] as int,
                #[trigger] new_order[q] as int,
            ) by {
                if p < pos && q < pos {
                    assert(new_order[p] == old_order[p]);
                    assert(new_order[q] == old_order[q]);
                } else if p < pos && q == pos {
                    assert(new_order[p] == old_order[p]);
                } else if p < pos && q > pos {
                    assert(new_order[p] == old_order[p]);
                    assert(new_order[q] == old_order[q - 1]);
                    assert(old_order[p] == old_order[p]);
                    assert(comes_before(keys@, old_order[p] as int, old_order[q - 1] as int));
                } else if p == pos {
                    assert(new_order[q] == old_order[q - 1]);
                    assert(time_lt(ki, keys@[old_order[q - 1] as int]));
                } else {
                    assert(new_order[p] == old_order[p - 1]);
                    assert(new_order[q] == old_order[q - 1]);
                    assert(comes_before(keys@, old_order[p - 1] as int, old_order[q - 1] as int));
                }
            }
        }
        i = i + 1;
    }
    order
}

} // verus!
