//! Laws the library promises, stated over the same spec functions that the
//! packers' own contracts use.

use vstd::prelude::*;
use crate::layout::{Layout, grid_slot, grid_height};
use crate::columns::{clamp_width, n_columns_of, column_width_of, lemma_column_params};
use crate::horizontal::{
    h_state, h_step, h_row_close, h_total_height, sum_widths, lemma_h_state_row_sum,
    lemma_sum_widths_congruence, lemma_scaled_sum_bounds,
};
use crate::vertical::{v_heights, v_slot, seq_max, argmin_idx, lemma_argmin_min, lemma_v_heights_len};
use crate::aspect::{AspectRatio, normalize, valid_ratio, lemma_normalize_valid};
use crate::transform::{Transform, ratio_width, scale_val, lemma_ratio_width_le};
use crate::rounding::{rdiv, lemma_rdiv_bounds, lemma_rdiv_scale_le};

verus! {

/// Law (row tightness, zero gap): when placing item `k` overflows the
/// container width and closes a row, the rescaled widths of that row's
/// items sum to the container width within one unit per item. The gaps
/// between items are not rescaled with the widths, so with a non-zero gap a
/// closed row can overshoot the container by more than this; the law
/// therefore holds for a gap of zero.
pub proof fn lemma_row_tightness(ratios: Seq<AspectRatio>, k: int, ts: int, cw: int)
    requires
        0 <= k,
        1 <= ts <= 655,
        1 <= cw,
        forall|q: int| 0 <= q <= k ==> valid_ratio(#[trigger] ratios[q]),
        h_state(ratios, k, ts, 0, cw).row_w + ratio_width(ts, ratios[k]) > cw,
    ensures
        ({
            let st = h_state(ratios, k, ts, 0, cw);
            let row = sum_widths(h_state(ratios, k + 1, ts, 0, cw).placed, st.first, k + 1);
            let m = k + 1 - st.first;
            cw - m <= row && row <= cw + m
        }),
{
    let st = h_state(ratios, k, ts, 0, cw);
    lemma_h_state_row_sum(ratios, k, ts, cw);
    let w = ratio_width(ts, ratios[k]);
    lemma_ratio_width_le(ts, ratios[k]);
    let t0 = Transform {
        width: w as u16,
        height: ts as u16,
        left: st.row_w as u32,
        top: st.top as u32,
    };
    let placed1 = st.placed.push(t0);
    lemma_sum_widths_congruence(st.placed, placed1, st.first, k);
    let nrw = st.row_w + w + 0;
    assert(sum_widths(placed1, st.first, k + 1) == nrw);
    assert(h_state(ratios, k + 1, ts, 0, cw) == h_step(st, ratios[k], ts, 0, cw));
    let ch = rdiv(ts * cw, nrw);
    let closed = h_row_close(placed1, st.first, ch, cw, nrw);
    assert(h_state(ratios, k + 1, ts, 0, cw).placed == closed);
    assert forall|q: int| st.first <= q < k + 1 implies (#[trigger] closed[q]).width as int
        == scale_val(placed1[q].width as int, cw, nrw) by {
        lemma_rdiv_scale_le(placed1[q].width as int, cw, nrw);
        lemma_rdiv_bounds(placed1[q].width * cw, nrw);
    }
    lemma_scaled_sum_bounds(placed1, closed, st.first, cw, nrw, k + 1);
    let m = k + 1 - st.first;
    let row = sum_widths(closed, st.first, k + 1);
    let h = nrw / 2;
    assert(m * h <= m * nrw && m * (h + 1 - nrw) >= m * (-nrw)) by (nonlinear_arith)
        requires
            0 <= m,
            0 <= h <= nrw,
    ;
    assert(nrw * (cw + m) == nrw * cw + m * nrw && nrw * (cw - m) == nrw * cw + m * (-nrw)
        && cw * nrw == nrw * cw) by (nonlinear_arith);
    assert(row <= cw + m) by (nonlinear_arith)
        requires
            nrw * row <= nrw * (cw + m),
            1 <= nrw,
    ;
    assert(row >= cw - m) by (nonlinear_arith)
        requires
            nrw * row >= nrw * (cw - m),
            1 <= nrw,
    ;
}

/// Law: the row-fill layout is a function of the ratios, item count,
/// thumbnail size and gap alone — all values a packer run leaves unchanged,
/// as `compute_horizontal` ensures. So a second run with the same container
/// width yields bit-identical placements and the same total height.
pub proof fn lemma_horizontal_idempotent(before: Layout, after: Layout, cw: u16)
    requires
        after.ratios() == before.ratios(),
        after.count() == before.count(),
        after.thumb() == before.thumb(),
        after.gap() == before.gap(),
    ensures
        h_state(
            after.ratios(),
            after.count(),
            after.thumb() as int,
            after.gap() as int,
            clamp_width(cw, after.thumb()),
        ) == h_state(
            before.ratios(),
            before.count(),
            before.thumb() as int,
            before.gap() as int,
            clamp_width(cw, before.thumb()),
        ),
        h_total_height(
            after.ratios(),
            after.count(),
            after.thumb() as int,
            after.gap() as int,
            clamp_width(cw, after.thumb()),
        ) == h_total_height(
            before.ratios(),
            before.count(),
            before.thumb() as int,
            before.gap() as int,
            clamp_width(cw, before.thumb()),
        ),
{
}

/// Law: the vertical masonry layout is likewise a function of values a
/// packer run leaves unchanged, so a repeated `compute_vertical` yields the
/// same placements and the same total height.
pub proof fn lemma_vertical_idempotent(before: Layout, after: Layout, cw: u16, i: int)
    requires
        after.ratios() == before.ratios(),
        after.count() == before.count(),
        after.thumb() == before.thumb(),
        after.gap() == before.gap(),
    ensures
        v_slot(
            after.ratios(),
            i,
            column_width_of(cw, after.thumb()) - after.gap(),
            after.gap() as int,
            n_columns_of(cw, after.thumb()),
            column_width_of(cw, after.thumb()),
        ) == v_slot(
            before.ratios(),
            i,
            column_width_of(cw, before.thumb()) - before.gap(),
            before.gap() as int,
            n_columns_of(cw, before.thumb()),
            column_width_of(cw, before.thumb()),
        ),
        seq_max(
            v_heights(
                after.ratios(),
                after.count(),
                column_width_of(cw, after.thumb()) - after.gap(),
                after.gap() as int,
                n_columns_of(cw, after.thumb()),
            ),
        ) == seq_max(
            v_heights(
                before.ratios(),
                before.count(),
                column_width_of(cw, before.thumb()) - before.gap(),
                before.gap() as int,
                n_columns_of(cw, before.thumb()),
            ),
        ),
{
}

/// Law: the grid layout is likewise a function of values a packer run
/// leaves unchanged, so a repeated `compute_grid` yields the same placements
/// and the same total height.
pub proof fn lemma_grid_idempotent(before: Layout, after: Layout, cw: u16, i: int)
    requires
        after.count() == before.count(),
        after.thumb() == before.thumb(),
        after.gap() == before.gap(),
    ensures
        grid_slot(i, cw, after.thumb(), after.gap()) == grid_slot(
            i,
            cw,
            before.thumb(),
            before.gap(),
        ),
        grid_height(after.count(), cw, after.thumb()) == grid_height(
            before.count(),
            cw,
            before.thumb(),
        ),
{
}

/// Law: the columns of the vertical and grid layouts tile the container:
/// `n_columns * column_width` is within one thumbnail size of the clamped
/// container width.
pub proof fn lemma_columns_cover_width(cw: u16, ts: u16)
    requires
        1 <= ts <= 655,
    ensures
        n_columns_of(cw, ts) * column_width_of(cw, ts) <= clamp_width(cw, ts) + ts,
        clamp_width(cw, ts) <= n_columns_of(cw, ts) * column_width_of(cw, ts) + ts,
{
    lemma_column_params(cw, ts);
}

/// Law: in the grid layout every item's left offset is a whole multiple of
/// the column width, with the column index below the column count.
pub proof fn lemma_grid_left_multiple(i: int, cw: u16, ts: u16, pad: u16)
    requires
        1 <= ts <= 655,
        0 <= i,
    ensures
        ({
            let n = n_columns_of(cw, ts);
            let colw = column_width_of(cw, ts);
            exists|k: int|
                0 <= k < n && grid_slot(i, cw, ts, pad).left as int == #[trigger] (k * colw)
        }),
{
    lemma_column_params(cw, ts);
    let n = n_columns_of(cw, ts);
    let colw = column_width_of(cw, ts);
    let k = i % n;
    vstd::arithmetic::div_mod::lemma_fundamental_div_mod(i, n);
    assert(0 <= k < n) by (nonlinear_arith)
        requires
            k == i % n,
            0 <= i,
            1 <= n,
    ;
    assert(0 <= k * colw && k * colw + colw <= n * colw) by (nonlinear_arith)
        requires
            0 <= k < n,
            1 <= colw,
    ;
    assert(grid_slot(i, cw, ts, pad).left as int == k * colw);
}

/// Law: in the vertical masonry layout every item's left offset is a whole
/// multiple of the column width, with the column index below the column
/// count.
pub proof fn lemma_vertical_left_multiple(
    ratios: Seq<AspectRatio>,
    i: int,
    iw: int,
    pad: int,
    cw: u16,
    ts: u16,
)
    requires
        1 <= ts <= 655,
        0 <= i,
    ensures
        ({
            let n = n_columns_of(cw, ts);
            let colw = column_width_of(cw, ts);
            exists|k: int|
                0 <= k < n && v_slot(ratios, i, iw, pad, n, colw).left as int == #[trigger] (k
                    * colw)
        }),
{
    lemma_column_params(cw, ts);
    let n = n_columns_of(cw, ts);
    let colw = column_width_of(cw, ts);
    let hs = v_heights(ratios, i, iw, pad, n);
    lemma_v_heights_len(ratios, i, iw, pad, n);
    lemma_argmin_min(hs);
    let k = argmin_idx(hs);
    assert(0 <= k * colw && k * colw + colw <= n * colw) by (nonlinear_arith)
        requires
            0 <= k < n,
            1 <= colw,
    ;
    assert(v_slot(ratios, i, iw, pad, n, colw).left as int == k * colw);
}

/// Law: for any raw source dimensions the normalized ratio is bounded close
/// to three-to-one: both components lie in `[1, 100]`, and three times the
/// smaller component plus one covers the larger (the one extra unit comes
/// from the integer floor in the `100 / 3 = 33` clamp).
pub proof fn lemma_aspect_bound(w: u16, h: u16)
    ensures
        ({
            let r = normalize(w, h);
            &&& 1 <= r.width <= 100
            &&& 1 <= r.height <= 100
            &&& (r.width <= r.height ==> r.height <= 3 * r.width + 1)
            &&& (r.height <= r.width ==> r.width <= 3 * r.height + 1)
        }),
{
    lemma_normalize_valid(w, h);
}

} // verus!
