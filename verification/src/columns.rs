//! Column geometry shared by the vertical masonry and grid packers.
//!
//! The container width (clamped to at least the thumbnail size) is split
//! into `n_columns = round_div(width, thumbnail_size)` columns of
//! `column_width = round_div(width, n_columns)` each. The lemma here pins
//! the ranges these values can take: the column width is at most twice the
//! thumbnail size, and the columns tile the container to within one
//! thumbnail size.

use vstd::prelude::*;
use crate::rounding::{rdiv_sat_u16, div_int_u16};

verus! {

/// The container width used by the packers: at least the thumbnail size,
/// so no layout pass sees a degenerate zero-width container.
pub open spec fn clamp_width(cw: u16, ts: u16) -> int {
    if cw >= ts {
        cw as int
    } else {
        ts as int
    }
}

/// Number of columns the clamped container width is split into.
pub open spec fn n_columns_of(cw: u16, ts: u16) -> int {
    rdiv_sat_u16(clamp_width(cw, ts), ts as int)
}

/// Width of each column.
pub open spec fn column_width_of(cw: u16, ts: u16) -> int {
    rdiv_sat_u16(clamp_width(cw, ts), n_columns_of(cw, ts))
}

/// Ranges of the column parameters: at least one column, each at most twice
/// the thumbnail size wide, and together they cover the clamped container
/// width to within one thumbnail size either way.
pub proof fn lemma_column_params(cw: u16, ts: u16)
    requires
        1 <= ts <= 655,
    ensures
        ({
            let cwc = clamp_width(cw, ts);
            let n = n_columns_of(cw, ts);
            let colw = column_width_of(cw, ts);
            &&& 1 <= n <= cwc
            &&& 1 <= colw <= 2 * (ts as int)
            &&& n * colw <= cwc + ts
            &&& cwc <= n * colw + ts
        }),
{
    let cwc = clamp_width(cw, ts);
    let tsi = ts as int;
    let half_ts = tsi / 2;
    let m1 = if cwc + half_ts <= u16::MAX {
        cwc + half_ts
    } else {
        u16::MAX as int
    };
    let n = n_columns_of(cw, ts);
    assert(n == m1 / tsi);
    assert(cwc <= m1 <= cwc + half_ts && m1 <= u16::MAX);
    assert(tsi * n <= m1 && m1 < tsi * n + tsi && n >= 1) by (nonlinear_arith)
        requires
            n == m1 / tsi,
            1 <= tsi <= m1,
    ;
    // The clamped width sits within half a thumbnail below and one above
    // the exact column grid `tsi * n`.
    assert(tsi * n - half_ts <= cwc && cwc <= tsi * n + tsi - 1);
    assert(n <= cwc) by (nonlinear_arith)
        requires
            tsi * n <= cwc + half_ts,
            half_ts <= tsi / 2 && half_ts * 2 <= tsi,
            1 <= tsi <= 655,
            1 <= n,
            tsi <= cwc,
    ;
    let half_n = n / 2;
    let m2 = if cwc + half_n <= u16::MAX {
        cwc + half_n
    } else {
        u16::MAX as int
    };
    let colw = column_width_of(cw, ts);
    assert(colw == m2 / n);
    assert(cwc <= m2 <= cwc + half_n && m2 <= u16::MAX);
    assert(n * colw <= m2 && m2 < n * colw + n && colw >= 1) by (nonlinear_arith)
        requires
            colw == m2 / n,
            1 <= n <= m2,
    ;
    assert(2 * half_n <= n && 2 * half_ts <= tsi);
    // colw <= 2 * tsi: the numerator m2 is below (2 * tsi + 1) * n.
    assert(m2 < (2 * tsi + 1) * n) by (nonlinear_arith)
        requires
            m2 <= cwc + half_n,
            cwc <= tsi * n + tsi - 1,
            2 * half_n <= n,
            1 <= tsi,
            1 <= n,
    ;
    assert(colw <= 2 * tsi) by (nonlinear_arith)
        requires
            n * colw <= m2,
            m2 < (2 * tsi + 1) * n,
            1 <= n,
    ;
    assert(tsi * n == n * tsi) by (nonlinear_arith);
    // n * colw <= cwc + tsi, by contradiction.
    if n * colw > cwc + tsi {
        // The numerator bound forces the half-column rounding slack to
        // exceed the thumbnail size ...
        assert(n * colw <= m2 && m2 <= cwc + half_n);
        assert(half_n >= tsi + 1);
        // ... while the column width bound forces it under.
        assert(colw >= tsi + 1) by (nonlinear_arith)
            requires
                n * colw > tsi * n - half_ts + tsi,
                2 * half_ts <= tsi,
                1 <= n,
                1 <= tsi,
                0 <= colw,
        ;
        assert(n * colw >= n * tsi + n) by (nonlinear_arith)
            requires
                colw >= tsi + 1,
                1 <= n,
        ;
        assert(n * tsi + n <= cwc + half_n);
        assert(cwc <= n * tsi + tsi - 1);
        assert(n - half_n <= tsi - 1);
        assert(half_n <= n - half_n);
        assert(false);
    }
    // cwc <= n * colw + tsi, by contradiction.
    if cwc > n * colw + tsi {
        assert(cwc - n * colw <= n - 1);
        assert(n >= tsi + 2);
        assert(n * colw < cwc - tsi);
        assert(colw <= tsi - 1) by (nonlinear_arith)
            requires
                n * colw < cwc - tsi,
                cwc <= tsi * n + tsi - 1,
                1 <= n,
                0 <= colw,
        ;
        assert(n * colw <= n * tsi - n) by (nonlinear_arith)
            requires
                colw <= tsi - 1,
                1 <= n,
        ;
        if cwc + half_n <= u16::MAX {
            // No saturation: cwc sits within the rounding slack of the
            // column grid, which forces n back under tsi.
            assert(m2 == cwc + half_n);
            assert(cwc + half_n <= n * colw + n - 1);
            assert(cwc <= n * tsi - 1 - half_n);
            assert(n * tsi - half_ts <= cwc);
            assert(half_n + 1 <= half_ts);
            assert(2 * half_n <= n && n <= 2 * half_n + 1);
            assert(2 * half_ts <= tsi && tsi <= 2 * half_ts + 1);
            assert(n <= tsi);
            assert(false);
        } else {
            // Saturation: the saturated numerator would lie strictly below
            // n * tsi, which the first division already bounded above it.
            assert(m2 == u16::MAX as int);
            assert(m2 < n * colw + n);
            assert(m2 < n * tsi);
            assert(n * tsi <= m1 && m1 <= u16::MAX as int);
            assert(false);
        }
    }
}

/// Computes `(n_columns, column_width)` for the given container width.
pub fn column_params(container_width: u16, thumbnail_size: u16) -> (r: (u16, u16))
    requires
        1 <= thumbnail_size <= 655,
    ensures
        r.0 as int == n_columns_of(container_width, thumbnail_size),
        r.1 as int == column_width_of(container_width, thumbnail_size),
        1 <= r.0,
        1 <= r.1 <= 2 * thumbnail_size,
        r.0 * r.1 <= clamp_width(container_width, thumbnail_size) + thumbnail_size,
        clamp_width(container_width, thumbnail_size) <= r.0 * r.1 + thumbnail_size,
{
    proof {
        lemma_column_params(container_width, thumbnail_size);
    }
    let cwc: u16 = if container_width >= thumbnail_size {
        container_width
    } else {
        thumbnail_size
    };
    let n_columns: u16 = div_int_u16(cwc, thumbnail_size);
    let column_width: u16 = div_int_u16(cwc, n_columns);
    (n_columns, column_width)
}

} // verus!
