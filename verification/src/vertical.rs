//! Column-balanced vertical masonry.
//!
//! The container is split into equal columns; each item in turn is placed at
//! the bottom of the currently shortest column (ties broken by the leftmost
//! column), then that column grows by the item's height plus the gap. The
//! returned total height is the height of the tallest column.

use vstd::prelude::*;
use crate::aspect::AspectRatio;
use crate::transform::{Transform, ratio_height, lemma_ratio_height_le};

verus! {

/// Index of the smallest value; ties go to the smallest index.
pub open spec fn argmin_idx(hs: Seq<int>) -> int
    decreases hs.len(),
{
    if hs.len() <= 1 {
        0
    } else {
        let a = argmin_idx(hs.drop_last());
        if hs.last() < hs[a] {
            hs.len() - 1
        } else {
            a
        }
    }
}

/// Largest value in the sequence, or 0 when it is empty; column heights are
/// never negative, so 0 is neutral.
pub open spec fn seq_max(hs: Seq<int>) -> int
    decreases hs.len(),
{
    if hs.len() == 0 {
        0
    } else {
        let m = seq_max(hs.drop_last());
        if hs.last() > m {
            hs.last()
        } else {
            m
        }
    }
}

/// `argmin_idx` selects a minimal element, and the first one among equals.
pub proof fn lemma_argmin_min(hs: Seq<int>)
    requires
        hs.len() >= 1,
    ensures
        0 <= argmin_idx(hs) < hs.len(),
        forall|k: int| 0 <= k < hs.len() ==> hs[argmin_idx(hs)] <= #[trigger] hs[k],
    decreases hs.len(),
{
    if hs.len() > 1 {
        let dl = hs.drop_last();
        lemma_argmin_min(dl);
        assert(hs[argmin_idx(hs)] <= dl[argmin_idx(dl)]);
        assert forall|k: int| 0 <= k < hs.len() implies hs[argmin_idx(hs)] <= #[trigger] hs[k] by {
            if k < hs.len() - 1 {
                assert(dl[k] == hs[k]);
                assert(dl[argmin_idx(dl)] <= dl[k]);
            }
        }
    }
}

/// Every element is at most `seq_max`, and `seq_max` is never negative.
pub proof fn lemma_seq_max_ge(hs: Seq<int>)
    ensures
        0 <= seq_max(hs),
        forall|k: int| 0 <= k < hs.len() ==> #[trigger] hs[k] <= seq_max(hs),
    decreases hs.len(),
{
    if hs.len() > 0 {
        let dl = hs.drop_last();
        lemma_seq_max_ge(dl);
        assert forall|k: int| 0 <= k < hs.len() implies #[trigger] hs[k] <= seq_max(hs) by {
            if k < hs.len() - 1 {
                assert(dl[k] == hs[k]);
                assert(dl[k] <= seq_max(dl));
            }
        }
    }
}

/// Column heights after the first `k` items have been placed greedily:
/// each item goes to the shortest column (leftmost on ties) and adds its
/// derived height plus the gap there.
pub open spec fn v_heights(ratios: Seq<AspectRatio>, k: int, iw: int, pad: int, ncols: int) -> Seq<
    int,
>
    decreases k,
{
    if k <= 0 {
        Seq::new(ncols as nat, |x: int| 0)
    } else {
        let hs = v_heights(ratios, k - 1, iw, pad, ncols);
        let j = argmin_idx(hs);
        hs.update(j, hs[j] + ratio_height(iw, ratios[k - 1]) + pad)
    }
}

/// Placement of item `i` in the vertical masonry: the shortest column when
/// its turn comes, at that column's filled height.
pub open spec fn v_slot(
    ratios: Seq<AspectRatio>,
    i: int,
    iw: int,
    pad: int,
    ncols: int,
    colw: int,
) -> Transform {
    let hs = v_heights(ratios, i, iw, pad, ncols);
    let j = argmin_idx(hs);
    Transform {
        width: iw as u16,
        height: ratio_height(iw, ratios[i]) as u16,
        left: (j * colw) as u32,
        top: hs[j] as u32,
    }
}

/// The greedy column heights always cover exactly `ncols` columns.
pub proof fn lemma_v_heights_len(ratios: Seq<AspectRatio>, k: int, iw: int, pad: int, ncols: int)
    requires
        1 <= ncols,
    ensures
        v_heights(ratios, k, iw, pad, ncols).len() == ncols,
    decreases (if k <= 0 { 0int } else { k }),
{
    if k > 0 {
        lemma_v_heights_len(ratios, k - 1, iw, pad, ncols);
        lemma_argmin_min(v_heights(ratios, k - 1, iw, pad, ncols));
    }
}

/// Column heights only grow as more items are placed.
pub proof fn lemma_v_heights_mono(
    ratios: Seq<AspectRatio>,
    k1: int,
    k2: int,
    iw: int,
    pad: int,
    ncols: int,
)
    requires
        1 <= ncols,
        0 <= k1 <= k2,
        0 <= iw,
        0 <= pad,
        forall|j: int| 0 <= j < k2 ==> crate::aspect::valid_ratio(#[trigger] ratios[j]),
    ensures
        forall|j: int|
            0 <= j < ncols ==> v_heights(ratios, k1, iw, pad, ncols)[j] <= #[trigger] v_heights(
                ratios,
                k2,
                iw,
                pad,
                ncols,
            )[j],
    decreases k2,
{
    if k2 > k1 {
        lemma_v_heights_mono(ratios, k1, k2 - 1, iw, pad, ncols);
        lemma_v_heights_len(ratios, k2 - 1, iw, pad, ncols);
        lemma_argmin_min(v_heights(ratios, k2 - 1, iw, pad, ncols));
        lemma_ratio_height_le(iw, ratios[k2 - 1]);
    }
}

} // verus!
