//! Generic read helpers shared by the command surface.

use vstd::prelude::*;
use vstd::pervasive::cloned;

use crate::error::{AppError, AppResult};

verus! {

/// `ks` names, in strictly increasing order, the stored positions behind
/// the output `v`: every output item is a clone of the stored item at its
/// position, the filter accepted each of those items, and the filter
/// rejected every stored item at a position `ks` skips.
pub open spec fn filter_selection<T: Clone, F: Fn(&T) -> bool>(
    items: Seq<T>,
    f: F,
    v: Seq<T>,
    ks: Seq<int>,
) -> bool {
    &&& ks.len() == v.len()
    &&& forall|j: int| 0 <= j < ks.len() ==> 0 <= #[trigger] ks[j] < items.len()
    &&& forall|j: int|
        0 <= j < ks.len() ==> cloned(items[#[trigger] ks[j]], v[j]) && call_ensures(
            f,
            (&items[ks[j]],),
            true,
        )
    &&& forall|a: int, b: int| 0 <= a < b < ks.len() ==> ks[a] < ks[b]
    &&& forall|i: int|
        0 <= i < items.len() && !ks.contains(i) ==> call_ensures(f, (&items[i],), false)
}

/// The output `v` is a complete, order-preserving filtering of `items`:
/// some increasing selection of positions accounts for every output item,
/// and the filter turned down everything that was left out.
pub open spec fn filtered_from<T: Clone, F: Fn(&T) -> bool>(items: Seq<T>, f: F, v: Seq<T>) -> bool {
    exists|ks: Seq<int>| filter_selection(items, f, v, ks)
}

/// Reads a snapshot of a collection, keeping the items the filter accepts
/// (all of them when no filter is given), in store order.  With a filter,
/// the result is a complete in-order filtering: each returned item is a
/// clone of an accepted stored item, and every stored item that is not
/// represented was rejected by the filter.
pub fn read_items<T: Clone, F: Fn(&T) -> bool>(items: &Vec<T>, filter: Option<F>) -> (out:
    AppResult<Vec<T>>)
    requires
        match filter {
            Some(f) => forall|i: int|
                0 <= i < items@.len() ==> #[trigger] call_requires(f, (&items@[i],)),
            None => true,
        },
    ensures
        out matches Ok(v) && (match filter {
            None => v@.len() == items@.len() && (forall|i: int|
                0 <= i < items@.len() ==> cloned(items@[i], #[trigger] v@[i])),
            Some(f) => filtered_from(items@, f, v@),
        }),
{
    let mut out: Vec<T> = Vec::new();
    match filter {
        Some(f) => {
            let ghost mut ks: Seq<int> = Seq::empty();
            let mut i: usize = 0;
            while i < items.len()
                invariant
                    i <= items.len(),
                    forall|k: int|
                        0 <= k < items@.len() ==> #[trigger] call_requires(f, (&items@[k],)),
                    ks.len() == out@.len(),
                    forall|j: int| 0 <= j < ks.len() ==> 0 <= #[trigger] ks[j] < i,
                    forall|j: int|
                        0 <= j < ks.len() ==> cloned(items@[#[trigger] ks[j]], out@[j])
                            && call_ensures(f, (&items@[ks[j]],), true),
                    forall|a: int, b: int| 0 <= a < b < ks.len() ==> ks[a] < ks[b],
                    forall|p: int|
                        0 <= p < i && !ks.contains(p) ==> call_ensures(f, (&items@[p],), false),
                decreases items.len() - i,
            {
                let ghost ksold = ks;
                if f(&items[i]) {
                    out.push(items[i].clone());
                    proof {
                        ks = ks.push(i as int);
                        assert forall|p: int|
                            0 <= p < i + 1 && !ks.contains(p) implies call_ensures(
                            f,
                            (&items@[p],),
                            false,
                        ) by {
                            if p == i as int {
                                assert(ks[ks.len() - 1] == p);
                                assert(ks.contains(p));
                            } else {
                                assert(!ksold.contains(p)) by {
                                    if ksold.contains(p) {
                                        let w = choose|w: int|
                                            0 <= w < ksold.len() && ksold[w] == p;
                                        assert(ks[w] == p);
                                        assert(ks.contains(p));
                                    }
                                }
                            }
                        }
                    }
                } else {
                    proof {
                        assert(!ks.contains(i as int)) by {
                            if ks.contains(i as int) {
                                let w = choose|w: int| 0 <= w < ks.len() && ks[w] == i as int;
                                assert(ks[w] < i);
                            }
                        }
                    }
                }
                i = i + 1;
            }
            proof {
                assert(filter_selection(items@, f, out@, ks));
            }
            Ok(out)
        },
        None => {
            let mut i: usize = 0;
            while i < items.len()
                invariant
                    i <= items.len(),
                    out@.len() == i,
                    forall|k: int| 0 <= k < i ==> cloned(items@[k], #[trigger] out@[k]),
                decreases items.len() - i,
            {
                out.push(items[i].clone());
                i = i + 1;
            }
            Ok(out)
        },
    }
}

} // verus!
