//! Row-fill horizontal masonry.
//!
//! Items are placed left to right at the nominal thumbnail height, each with
//! the width its ratio gives. When an item would push the running row width
//! past the container width, the whole row (that item included) is rescaled
//! by `container / overflowed` so the row ends flush with the container
//! edge, and a new row starts below it. The last row, if never closed, keeps
//! its natural height.

use vstd::prelude::*;
use crate::rounding::rdiv;
use crate::aspect::AspectRatio;
use crate::transform::{Transform, ratio_width, scale_val};

verus! {

/// State of the row-fill pass after some prefix of the items: the
/// placements made so far, the top offset of the current row, the current
/// row's running width, and the index where the current row starts.
pub struct HorizState {
    pub placed: Seq<Transform>,
    pub top: int,
    pub row_w: int,
    pub first: int,
}

/// The just-overflowed row `[first, placed.len())` rescaled to the container
/// width: every item's height becomes the corrected row height, and its
/// left edge and width shrink by `cw / nrw`, rounding to nearest.
pub open spec fn h_row_close(placed: Seq<Transform>, first: int, ch: int, cw: int, nrw: int) -> Seq<
    Transform,
> {
    Seq::new(
        placed.len(),
        |j: int|
            if first <= j {
                let t = placed[j];
                Transform {
                    width: scale_val(t.width as int, cw, nrw) as u16,
                    height: ch as u16,
                    left: scale_val(t.left as int, cw, nrw) as u32,
                    top: t.top,
                }
            } else {
                placed[j]
            },
    )
}

/// One step of the row-fill pass: tentatively place the next item at the
/// running row position, then close and rescale the row if it overflowed.
pub open spec fn h_step(st: HorizState, r: AspectRatio, ts: int, pad: int, cw: int) -> HorizState {
    let w = ratio_width(ts, r);
    let t0 = Transform {
        width: w as u16,
        height: ts as u16,
        left: st.row_w as u32,
        top: st.top as u32,
    };
    let placed1 = st.placed.push(t0);
    let nrw = st.row_w + w + pad;
    if nrw > cw {
        let ch = rdiv(ts * cw, nrw);
        HorizState {
            placed: h_row_close(placed1, st.first, ch, cw, nrw),
            top: st.top + ch + pad,
            row_w: 0,
            first: placed1.len() as int,
        }
    } else {
        HorizState { placed: placed1, top: st.top, row_w: nrw, first: st.first }
    }
}

/// State of the row-fill pass after the first `k` items.
pub open spec fn h_state(ratios: Seq<AspectRatio>, k: int, ts: int, pad: int, cw: int) -> HorizState
    decreases k,
{
    if k <= 0 {
        HorizState { placed: Seq::empty(), top: 0, row_w: 0, first: 0 }
    } else {
        h_step(h_state(ratios, k - 1, ts, pad, cw), ratios[k - 1], ts, pad, cw)
    }
}

/// Sum of the placement widths over the index range `[first, k)`.
pub open spec fn sum_widths(s: Seq<Transform>, first: int, k: int) -> int
    decreases k - first,
{
    if k <= first {
        0
    } else {
        sum_widths(s, first, k - 1) + s[k - 1].width
    }
}

/// Two sequences that agree on a range have the same width sum over it.
pub proof fn lemma_sum_widths_congruence(s1: Seq<Transform>, s2: Seq<Transform>, first: int, k: int)
    requires
        forall|q: int| first <= q < k ==> s1[q] == #[trigger] s2[q],
    ensures
        sum_widths(s1, first, k) == sum_widths(s2, first, k),
    decreases k - first,
{
    if k > first {
        lemma_sum_widths_congruence(s1, s2, first, k - 1);
    }
}

/// With a zero gap, the running row width is exactly the sum of the widths
/// placed since the current row started.
pub proof fn lemma_h_state_row_sum(ratios: Seq<AspectRatio>, k: int, ts: int, cw: int)
    requires
        0 <= ts <= 655,
        0 <= cw,
        forall|q: int| 0 <= q < k ==> crate::aspect::valid_ratio(#[trigger] ratios[q]),
    ensures
        ({
            let st = h_state(ratios, k, ts, 0, cw);
            &&& st.placed.len() == (if k <= 0 { 0int } else { k })
            &&& 0 <= st.first <= st.placed.len()
            &&& st.row_w == sum_widths(st.placed, st.first, st.placed.len() as int)
        }),
    decreases (if k <= 0 { 0int } else { k }),
{
    if k > 0 {
        lemma_h_state_row_sum(ratios, k - 1, ts, cw);
        let st = h_state(ratios, k - 1, ts, 0, cw);
        let w = ratio_width(ts, ratios[k - 1]);
        crate::transform::lemma_ratio_width_le(ts, ratios[k - 1]);
        let t0 = Transform {
            width: w as u16,
            height: ts as u16,
            left: st.row_w as u32,
            top: st.top as u32,
        };
        let placed1 = st.placed.push(t0);
        lemma_sum_widths_congruence(st.placed, placed1, st.first, st.placed.len() as int);
        let nrw = st.row_w + w + 0;
        if nrw > cw {
        } else {
            assert(sum_widths(placed1, st.first, placed1.len() as int) == sum_widths(
                placed1,
                st.first,
                st.placed.len() as int,
            ) + t0.width);
        }
    }
}

/// The rescaled widths of a closed row sum to within one unit per item of
/// the exact rescaling of the unscaled sum.
pub proof fn lemma_scaled_sum_bounds(
    placed1: Seq<Transform>,
    closed: Seq<Transform>,
    first: int,
    cw: int,
    nrw: int,
    m: int,
)
    requires
        0 <= first <= m,
        1 <= cw < nrw,
        closed.len() == placed1.len(),
        m <= placed1.len(),
        forall|q: int|
            first <= q < m ==> (#[trigger] closed[q]).width as int == scale_val(
                placed1[q].width as int,
                cw,
                nrw,
            ),
    ensures
        nrw * sum_widths(closed, first, m) <= cw * sum_widths(placed1, first, m) + (m - first) * (
        nrw / 2),
        nrw * sum_widths(closed, first, m) >= cw * sum_widths(placed1, first, m) + (m - first) * (
        nrw / 2 + 1 - nrw),
    decreases m - first,
{
    let h = nrw / 2;
    if m <= first {
        assert(nrw * 0 == 0) by (nonlinear_arith);
    } else {
        lemma_scaled_sum_bounds(placed1, closed, first, cw, nrw, m - 1);
        let wq = placed1[m - 1].width as int;
        let sv = scale_val(wq, cw, nrw);
        crate::rounding::lemma_rdiv_bounds(wq * cw, nrw);
        assert(nrw * sv <= wq * cw + h && wq * cw + h < nrw * sv + nrw);
        let t1 = sum_widths(closed, first, m - 1);
        let s1 = sum_widths(placed1, first, m - 1);
        assert(nrw * (t1 + sv) == nrw * t1 + nrw * sv) by (nonlinear_arith);
        assert(cw * (s1 + wq) == cw * s1 + cw * wq) by (nonlinear_arith);
        assert(cw * wq == wq * cw) by (nonlinear_arith);
        assert((m - first) * h == (m - 1 - first) * h + h) by (nonlinear_arith);
        assert((m - first) * (h + 1 - nrw) == (m - 1 - first) * (h + 1 - nrw) + (h + 1 - nrw))
            by (nonlinear_arith);
    }
}

/// Total height of the row-fill layout over `n` items: the accumulated top
/// offset, plus one uncorrected row when the last row never closed.
pub open spec fn h_total_height(ratios: Seq<AspectRatio>, n: int, ts: int, pad: int, cw: int) -> int {
    let st = h_state(ratios, n, ts, pad, cw);
    if st.row_w == 0 {
        st.top
    } else {
        st.top + ts + pad
    }
}

} // verus!
