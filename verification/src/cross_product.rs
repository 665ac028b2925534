//! The Cartesian product of a list of lists, as the simulator enumerates
//! joint moves: one element from each list, the last list varying slowest.
use vstd::prelude::*;

verus! {

/// The views of a list of lists.
pub open spec fn spec_vecs_view<T>(lists: Seq<Vec<T>>) -> Seq<Seq<T>> {
    lists.map(|k: int, v: Vec<T>| v@)
}

/// Every row of `cp` extended by one fixed element.
pub open spec fn spec_rows_with<T>(cp: Seq<Seq<T>>, x: T) -> Seq<Seq<T>> {
    cp.map(|k: int, row: Seq<T>| row.push(x))
}

/// The rows built from the first `n` elements of `friend`: for each such
/// element in order, every row of `cp` extended by it.
pub open spec fn spec_concat_rows<T>(cp: Seq<Seq<T>>, friend: Seq<T>, n: int) -> Seq<Seq<T>>
    decreases n,
{
    if n <= 0 {
        Seq::empty()
    } else {
        spec_concat_rows(cp, friend, n - 1) + spec_rows_with(cp, friend[n - 1])
    }
}


/// The product of a list of counts; no lists give no rows.
pub open spec fn spec_count_product(lens: Seq<int>) -> int
    decreases lens.len(),
{
    if lens.len() == 0 {
        0
    } else if lens.len() == 1 {
        lens[0]
    } else {
        spec_count_product(lens.drop_last()) * lens.last()
    }
}

/// The rows built from the first `n` elements of `friend` number `n` times
/// the rows of `cp`.
pub proof fn lemma_concat_rows_len<T>(cp: Seq<Seq<T>>, friend: Seq<T>, n: int)
    requires
        0 <= n,
    ensures
        spec_concat_rows(cp, friend, n).len() == n * cp.len(),
    decreases n,
{
    let c = cp.len() as int;
    if n == 0 {
        assert(n * c == 0) by (nonlinear_arith)
            requires
                n == 0,
        ;
    } else {
        lemma_concat_rows_len(cp, friend, n - 1);
        assert(spec_rows_with(cp, friend[n - 1]).len() == c);
        assert((n - 1) * c + c == n * c) by (nonlinear_arith);
    }
}

/// The product takes a zero from any of its counts.
pub proof fn lemma_count_product_zero(lens: Seq<int>, j: int)
    requires
        0 <= j < lens.len(),
        lens[j] == 0,
    ensures
        spec_count_product(lens) == 0,
    decreases lens.len(),
{
    if lens.len() > 1 {
        if j == lens.len() - 1 {
            assert(spec_count_product(lens.drop_last()) * 0 == 0) by (nonlinear_arith);
        } else {
            lemma_count_product_zero(lens.drop_last(), j);
            assert(0 * lens.last() == 0) by (nonlinear_arith);
        }
    }
}

/// The Cartesian product holds exactly the product of the list lengths.
pub proof fn lemma_cross_product_len<T>(lists: Seq<Seq<T>>)
    ensures
        spec_cross_product(lists).len() == spec_count_product(
            lists.map(|j: int, l: Seq<T>| l.len() as int),
        ),
    decreases lists.len(),
{
    let lens = lists.map(|j: int, l: Seq<T>| l.len() as int);
    if lists.len() == 0 {
    } else if lists.len() == 1 {
    } else {
        let cp = spec_cross_product(lists.drop_last());
        lemma_cross_product_len(lists.drop_last());
        lemma_concat_rows_len(cp, lists.last(), lists.last().len() as int);
        assert(lists.drop_last().map(|j: int, l: Seq<T>| l.len() as int) =~= lens.drop_last());
        assert(lists.last().len() as int * cp.len() == cp.len() * (lists.last().len() as int))
            by (nonlinear_arith);
    }
}

/// The Cartesian product of the lists: one element from each list per row,
/// rows ordered with the last list varying slowest.
pub open spec fn spec_cross_product<T>(lists: Seq<Seq<T>>) -> Seq<Seq<T>>
    decreases lists.len(),
{
    if lists.len() == 0 {
        Seq::empty()
    } else if lists.len() == 1 {
        lists[0].map(|k: int, x: T| seq![x])
    } else {
        let cp = spec_cross_product(lists.drop_last());
        spec_concat_rows(cp, lists.last(), lists.last().len() as int)
    }
}

/// Every row of the product takes exactly one element from each list, in
/// list order.
pub proof fn lemma_cross_product_shape<T>(lists: Seq<Seq<T>>)
    ensures
        forall|k: int|
            0 <= k < spec_cross_product(lists).len() ==> (#[trigger] spec_cross_product(lists)[k]).len()
                == lists.len(),
        forall|k: int, j: int|
            0 <= k < spec_cross_product(lists).len() && 0 <= j < lists.len() ==> lists[j].contains(
                #[trigger] spec_cross_product(lists)[k][j],
            ),
    decreases lists.len(),
{
    if lists.len() == 0 {
    } else if lists.len() == 1 {
        assert forall|k: int, j: int|
            0 <= k < spec_cross_product(lists).len() && 0 <= j < lists.len() implies lists[j].contains(
            #[trigger] spec_cross_product(lists)[k][j],
        ) by {
            assert(spec_cross_product(lists)[k] == seq![lists[0][k]]);
            assert(lists[0][k] == lists[j][k]);
        }
    } else {
        let cp = spec_cross_product(lists.drop_last());
        let friend = lists.last();
        lemma_cross_product_shape(lists.drop_last());
        assert forall|n: int| 0 <= n <= friend.len() implies {
            &&& spec_concat_rows(cp, friend, n).len() == n * cp.len()
            &&& forall|k: int|
                0 <= k < spec_concat_rows(cp, friend, n).len() ==> {
                    let row = #[trigger] spec_concat_rows(cp, friend, n)[k];
                    &&& row.len() == lists.len()
                    &&& (forall|j: int|
                        0 <= j < lists.len() - 1 ==> lists[j].contains(#[trigger] row[j]))
                    &&& friend.contains(row[lists.len() - 1])
                }
        } by {
            lemma_concat_rows_shape(cp, friend, n, lists);
        }
        assert(spec_cross_product(lists) == spec_concat_rows(cp, friend, friend.len() as int));
        assert forall|k: int, j: int|
            0 <= k < spec_cross_product(lists).len() && 0 <= j < lists.len() implies lists[j].contains(
            #[trigger] spec_cross_product(lists)[k][j],
        ) by {
            let row = spec_cross_product(lists)[k];
            if j < lists.len() - 1 {
                assert(lists[j].contains(row[j]));
            } else {
                assert(friend.contains(row[j]));
            }
        }
    }
}

/// The shape of the rows built from a prefix of `friend`, given the shape
/// of the rows of `cp`.
proof fn lemma_concat_rows_shape<T>(cp: Seq<Seq<T>>, friend: Seq<T>, n: int, lists: Seq<Seq<T>>)
    requires
        0 <= n <= friend.len(),
        lists.len() >= 2,
        cp == spec_cross_product(lists.drop_last()),
        friend == lists.last(),
        forall|k: int| 0 <= k < cp.len() ==> (#[trigger] cp[k]).len() == lists.len() - 1,
        forall|k: int, j: int|
            0 <= k < cp.len() && 0 <= j < lists.len() - 1 ==> lists.drop_last()[j].contains(
                #[trigger] cp[k][j],
            ),
    ensures
        spec_concat_rows(cp, friend, n).len() == n * cp.len(),
        forall|k: int|
            0 <= k < spec_concat_rows(cp, friend, n).len() ==> {
                let row = #[trigger] spec_concat_rows(cp, friend, n)[k];
                &&& row.len() == lists.len()
                &&& (forall|j: int| 0 <= j < lists.len() - 1 ==> lists[j].contains(#[trigger] row[j]))
                &&& friend.contains(row[lists.len() - 1])
            },
    decreases n,
{
    if n > 0 {
        lemma_concat_rows_shape(cp, friend, n - 1, lists);
        assert((n - 1) * cp.len() + cp.len() == n * cp.len()) by (nonlinear_arith);
        let prev = spec_concat_rows(cp, friend, n - 1);
        let added = spec_rows_with(cp, friend[n - 1]);
        assert forall|k: int| 0 <= k < spec_concat_rows(cp, friend, n).len() implies {
            let row = #[trigger] spec_concat_rows(cp, friend, n)[k];
            &&& row.len() == lists.len()
            &&& (forall|j: int| 0 <= j < lists.len() - 1 ==> lists[j].contains(#[trigger] row[j]))
            &&& friend.contains(row[lists.len() - 1])
        } by {
            let row = spec_concat_rows(cp, friend, n)[k];
            if k < prev.len() {
                assert(row == prev[k]);
            } else {
                let base = cp[k - prev.len()];
                assert(row == base.push(friend[n - 1]));
                assert(friend.contains(friend[n - 1])) by {
                    assert(friend[n - 1] == friend[n - 1]);
                }
                assert forall|j: int| 0 <= j < lists.len() - 1 implies lists[j].contains(
                    #[trigger] row[j],
                ) by {
                    assert(row[j] == base[j]);
                    assert(lists.drop_last()[j] == lists[j]);
                    let w = choose|w: int|
                        0 <= w < lists.drop_last()[j].len() && lists.drop_last()[j][w] == base[j];
                    assert(lists[j][w] == base[j]);
                }
            }
        }
    }
}

/// the Cartesian product of the given lists, one element from each per row
#[verifier::loop_isolation(false)]
pub fn cross_product<T: Copy>(mut i: Vec<Vec<T>>) -> (r: Vec<Vec<T>>)
    requires
        i@.len() >= 1,
    ensures
        spec_vecs_view(r@) == spec_cross_product(spec_vecs_view(i@)),
    decreases i@.len(),
{
    let ghost lists = spec_vecs_view(i@);
    if i.len() == 1 {
        let friend = i.pop().unwrap();
        let mut build: Vec<Vec<T>> = Vec::new();
        let mut k: usize = 0;
        while k < friend.len()
            invariant
                k <= friend@.len(),
                spec_vecs_view(build@) =~= friend@.take(k as int).map(|q: int, x: T| seq![x]),
            decreases friend@.len() - k,
        {
            let mut single: Vec<T> = Vec::new();
            single.push(friend[k]);
            build.push(single);
            proof {
                let prev_target = friend@.take(k as int).map(|q: int, x: T| seq![x]);
                let target = friend@.take(k + 1).map(|q: int, x: T| seq![x]);
                assert(build@.len() == target.len());
                assert forall|q: int| 0 <= q < build@.len() implies spec_vecs_view(build@)[q]
                    == target[q] by {
                    assert(spec_vecs_view(build@)[q] == build@[q]@);
                    assert(target[q] == seq![friend@.take(k + 1)[q]]);
                    if q < k {
                        assert(build@[q]@ == spec_vecs_view(build@.drop_last())[q]);
                        assert(spec_vecs_view(build@.drop_last()) =~= prev_target) by {
                            assert(build@.drop_last() =~= build@.take(build@.len() - 1));
                        }
                        assert(prev_target[q] == seq![friend@.take(k as int)[q]]);
                        assert(friend@.take(k as int)[q] == friend@.take(k + 1)[q]);
                    } else {
                        assert(build@[q]@ =~= seq![friend@[k as int]]);
                        assert(friend@.take(k + 1)[q] == friend@[k as int]);
                    }
                }
                assert(spec_vecs_view(build@) =~= target);
            }
            k = k + 1;
        }
        proof {
            assert(friend@.take(friend@.len() as int) =~= friend@);
            assert(lists[0] == friend@);
            assert(spec_vecs_view(build@) =~= spec_cross_product(lists));
        }
        build
    } else {
        let friend = i.pop().unwrap();
        proof {
            assert(spec_vecs_view(i@) =~= lists.drop_last());
            assert(friend@ == lists.last());
        }
        let cp = cross_product(i);
        let ghost cpv = spec_vecs_view(cp@);
        let mut build: Vec<Vec<T>> = Vec::new();
        let mut x_idx: usize = 0;
        while x_idx < friend.len()
            invariant
                x_idx <= friend@.len(),
                spec_vecs_view(build@) =~= spec_concat_rows(cpv, friend@, x_idx as int),
            decreases friend@.len() - x_idx,
        {
            let x = friend[x_idx];
            let mut item_idx: usize = 0;
            while item_idx < cp.len()
                invariant
                    item_idx <= cp@.len(),
                    x == friend@[x_idx as int],
                    x_idx < friend@.len(),
                    spec_vecs_view(build@) =~= spec_concat_rows(cpv, friend@, x_idx as int)
                        + spec_rows_with(cpv, x).take(item_idx as int),
                decreases cp@.len() - item_idx,
            {
                let row = &cp[item_idx];
                let mut ni: Vec<T> = Vec::new();
                let mut q: usize = 0;
                while q < row.len()
                    invariant
                        q <= row@.len(),
                        ni@ =~= row@.take(q as int),
                    decreases row@.len() - q,
                {
                    ni.push(row[q]);
                    proof {
                        assert(ni@ =~= row@.take(q + 1));
                    }
                    q = q + 1;
                }
                proof {
                    assert(ni@ =~= row@);
                }
                ni.push(x);
                build.push(ni);
                proof {
                    let prev_target = spec_concat_rows(cpv, friend@, x_idx as int)
                        + spec_rows_with(cpv, x).take(item_idx as int);
                    let target = spec_concat_rows(cpv, friend@, x_idx as int) + spec_rows_with(
                        cpv,
                        x,
                    ).take(item_idx + 1);
                    assert(build@.len() == target.len());
                    assert forall|q: int| 0 <= q < build@.len() implies spec_vecs_view(build@)[q]
                        == target[q] by {
                        assert(spec_vecs_view(build@)[q] == build@[q]@);
                        if q < build@.len() - 1 {
                            assert(build@[q]@ == spec_vecs_view(build@.drop_last())[q]);
                            assert(spec_vecs_view(build@.drop_last()) =~= prev_target) by {
                                assert(build@.drop_last() =~= build@.take(
                                    build@.len() - 1,
                                ));
                            }
                            assert(target[q] == prev_target[q]);
                        } else {
                            assert(build@[q]@ == ni@);
                            assert(ni@ =~= cpv[item_idx as int].push(x));
                            assert(target[q] == spec_rows_with(cpv, x).take(item_idx + 1)[
                            item_idx as int]);
                            assert(spec_rows_with(cpv, x)[item_idx as int] == cpv[
                            item_idx as int].push(x));
                        }
                    }
                    assert(spec_vecs_view(build@) =~= target);
                }
                item_idx = item_idx + 1;
            }
            proof {
                assert(spec_rows_with(cpv, x).take(cpv.len() as int) =~= spec_rows_with(cpv, x));
                assert(spec_vecs_view(build@) =~= spec_concat_rows(cpv, friend@, x_idx + 1));
            }
            x_idx = x_idx + 1;
        }
        proof {
            assert(spec_vecs_view(build@) =~= spec_cross_product(lists));
        }
        build
    }
}

} // verus!
