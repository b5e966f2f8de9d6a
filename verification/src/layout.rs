//! Layout state: parallel per-item buffers (computed placements and
//! normalized aspect ratios) plus the sizing parameters, and the three
//! packers that recompute all placements in place.

use vstd::prelude::*;
use vstd::arithmetic::div_mod::lemma_fundamental_div_mod_converse;
use crate::aspect::{AspectRatio, valid_ratio, normalize};
use crate::transform::{Transform, ratio_height, lemma_ratio_height_le, ratio_width};
use crate::columns::{clamp_width, n_columns_of, column_width_of, column_params};
use crate::vertical::{argmin_idx, seq_max, v_heights, v_slot, lemma_argmin_min, lemma_seq_max_ge, lemma_v_heights_len, lemma_v_heights_mono};
use crate::horizontal::{h_state, h_step, h_row_close, h_total_height};
use crate::rounding::{rdiv, div_int_u32, lemma_rdiv_bounds, lemma_rdiv_scale_le};

verus! {

/// Placement of item `i` in the uniform grid: row-major cells of side
/// `column_width - gap`, one column stride apart both ways.
pub open spec fn grid_slot(i: int, cw: u16, ts: u16, pad: u16) -> Transform {
    let n = n_columns_of(cw, ts);
    let colw = column_width_of(cw, ts);
    let cell = colw - pad;
    Transform {
        width: cell as u16,
        height: cell as u16,
        left: ((i % n) * colw) as u32,
        top: ((i / n) * colw) as u32,
    }
}

/// Number of grid rows `count` items occupy over `n` columns.
pub open spec fn grid_rows(count: int, n: int) -> int {
    (count + n - 1) / n
}

/// Total height of the uniform grid: full rows, the last possibly partial,
/// each one column stride tall.
pub open spec fn grid_height(count: int, cw: u16, ts: u16) -> int {
    grid_rows(count, n_columns_of(cw, ts)) * column_width_of(cw, ts)
}

/// Backing buffers are preallocated to at least this many slots, so that
/// small item counts never reallocate.
pub const MIN_ITEMS_CAPACITY: usize = 1_000;

/// The thumbnail size is capped at `u16::MAX / 100 = 655` so that
/// multiplying it by a ratio component (at most 100) stays within `u16`.
pub const MAX_THUMBNAIL_SIZE: u16 = u16::MAX / 100;

/// Owns the per-item placement and ratio buffers and the sizing parameters.
/// The buffers are parallel and grow-only; `num_items` is the logical count
/// of items that take part in a layout pass.
pub struct Layout {
    pub(crate) num_items: usize,
    pub(crate) transforms: Vec<Transform>,
    pub(crate) aspect_ratios: Vec<AspectRatio>,
    pub(crate) thumbnail_size: u16,
    pub(crate) padding: u16,
}

impl Layout {
    /// Number of items currently taking part in layout.
    pub closed spec fn count(&self) -> int {
        self.num_items as int
    }

    /// The placement buffer; only the first `count()` slots are meaningful.
    pub closed spec fn slots(&self) -> Seq<Transform> {
        self.transforms@
    }

    /// The ratio buffer, parallel to `slots()`.
    pub closed spec fn ratios(&self) -> Seq<AspectRatio> {
        self.aspect_ratios@
    }

    /// Nominal square thumbnail dimension.
    pub closed spec fn thumb(&self) -> u16 {
        self.thumbnail_size
    }

    /// Spacing between adjacent items, rows and columns.
    pub closed spec fn gap(&self) -> u16 {
        self.padding
    }

    /// Well-formedness: the buffers are parallel and cover the logical
    /// count, the thumbnail size is overflow-safe, and every stored ratio
    /// is bounded by the normalizer's invariant.
    pub open spec fn wf(&self) -> bool {
        &&& self.slots().len() == self.ratios().len()
        &&& self.count() <= self.slots().len()
        &&& self.thumb() <= 655
        &&& forall|j: int| 0 <= j < self.ratios().len() ==> valid_ratio(#[trigger] self.ratios()[j])
    }

    /// Creates a layout for `num_items` items, with buffers preallocated to
    /// at least `MIN_ITEMS_CAPACITY` slots, all placements zero and all
    /// ratios square. The thumbnail size is clamped to the overflow-safe cap.
    pub fn new(num_items: usize, thumbnail_size: u16, padding: u16) -> (l: Layout)
        ensures
            l.wf(),
            l.count() == num_items,
            l.thumb() == (if thumbnail_size > 655 { 655u16 } else { thumbnail_size }),
            l.gap() == padding,
            l.slots().len() == (if num_items > 1000 { num_items as int } else { 1000int }),
            forall|j: int| 0 <= j < l.slots().len() ==> l.slots()[j] == Transform::zero(),
            forall|j: int|
                0 <= j < l.ratios().len() ==> (#[trigger] l.ratios()[j]).width == 1
                    && l.ratios()[j].height == 1,
    {
        let capacity: usize = if num_items > MIN_ITEMS_CAPACITY {
            num_items
        } else {
            MIN_ITEMS_CAPACITY
        };
        let mut transforms: Vec<Transform> = Vec::new();
        let mut aspect_ratios: Vec<AspectRatio> = Vec::new();
        let mut i: usize = 0;
        while i < capacity
            invariant
                i <= capacity,
                transforms@.len() == i,
                aspect_ratios@.len() == i,
                forall|j: int| 0 <= j < i ==> transforms@[j] == Transform::zero(),
                forall|j: int|
                    0 <= j < i ==> (#[trigger] aspect_ratios@[j]).width == 1
                        && aspect_ratios@[j].height == 1,
            decreases capacity - i,
        {
            transforms.push(Transform::default());
            aspect_ratios.push(AspectRatio::default());
            i = i + 1;
        }
        Layout {
            num_items,
            transforms,
            aspect_ratios,
            thumbnail_size: if thumbnail_size > MAX_THUMBNAIL_SIZE {
                MAX_THUMBNAIL_SIZE
            } else {
                thumbnail_size
            },
            padding,
        }
    }

    /// Read accessor for the host's rendering step.
    pub fn get_transform(&self, index: usize) -> (t: Transform)
        requires
            self.wf(),
            index < self.count(),
        ensures
            t == self.slots()[index as int],
    {
        self.transforms[index]
    }

    /// Normalizes and stores the source dimensions of one item.
    pub fn set_dimension(&mut self, index: usize, src_width: u16, src_height: u16)
        requires
            old(self).wf(),
            index < old(self).count(),
        ensures
            final(self).wf(),
            final(self).ratios() == old(self).ratios().update(
                index as int,
                normalize(src_width, src_height),
            ),
            final(self).slots() == old(self).slots(),
            final(self).count() == old(self).count(),
            final(self).thumb() == old(self).thumb(),
            final(self).gap() == old(self).gap(),
    {
        let mut ratio: AspectRatio = self.aspect_ratios[index];
        ratio.set(src_width, src_height);
        self.aspect_ratios[index] = ratio;
    }

    /// Sets the thumbnail size, silently clamping to the overflow-safe cap.
    pub fn set_thumbnail_size(&mut self, thumbnail_size: u16)
        requires
            old(self).wf(),
        ensures
            final(self).wf(),
            final(self).thumb() == (if thumbnail_size > 655 { 655u16 } else { thumbnail_size }),
            final(self).ratios() == old(self).ratios(),
            final(self).slots() == old(self).slots(),
            final(self).count() == old(self).count(),
            final(self).gap() == old(self).gap(),
    {
        self.thumbnail_size = if thumbnail_size > MAX_THUMBNAIL_SIZE {
            MAX_THUMBNAIL_SIZE
        } else {
            thumbnail_size
        };
    }

    /// Sets the spacing between adjacent items.
    pub fn set_padding(&mut self, padding: u16)
        requires
            old(self).wf(),
        ensures
            final(self).wf(),
            final(self).gap() == padding,
            final(self).ratios() == old(self).ratios(),
            final(self).slots() == old(self).slots(),
            final(self).count() == old(self).count(),
            final(self).thumb() == old(self).thumb(),
    {
        self.padding = padding;
    }

    /// Changes the logical item count. The backing buffers grow with zero
    /// placements and square ratios if needed and are never truncated.
    pub fn resize(&mut self, new_len: usize)
        requires
            old(self).wf(),
        ensures
            final(self).wf(),
            final(self).count() == new_len,
            final(self).thumb() == old(self).thumb(),
            final(self).gap() == old(self).gap(),
            final(self).slots().len() == (if new_len > old(self).slots().len() {
                new_len as int
            } else {
                old(self).slots().len() as int
            }),
            forall|j: int|
                0 <= j < old(self).slots().len() ==> final(self).slots()[j] == old(self).slots()[j],
            forall|j: int|
                0 <= j < old(self).ratios().len() ==> final(self).ratios()[j] == old(self).ratios()[j],
            forall|j: int|
                old(self).slots().len() <= j < final(self).slots().len()
                    ==> final(self).slots()[j] == Transform::zero(),
            forall|j: int|
                old(self).ratios().len() <= j < final(self).ratios().len() ==> (#[trigger] final(self).ratios()[j]).width == 1 && final(self).ratios()[j].height == 1,
    {
        self.num_items = new_len;
        while self.transforms.len() < new_len
            invariant
                old(self).wf(),
                self.aspect_ratios@.len() == self.transforms@.len(),
                self.transforms@.len() >= old(self).slots().len(),
                self.transforms@.len() <= (if new_len > old(self).slots().len() {
                    new_len as int
                } else {
                    old(self).slots().len() as int
                }),
                self.num_items == new_len,
                self.thumbnail_size == old(self).thumb(),
                self.padding == old(self).gap(),
                forall|j: int|
                    0 <= j < old(self).slots().len() ==> self.transforms@[j] == old(self).slots()[j],
                forall|j: int|
                    0 <= j < old(self).ratios().len() ==> self.aspect_ratios@[j] == old(self).ratios()[j],
                forall|j: int|
                    old(self).slots().len() <= j < self.transforms@.len()
                        ==> self.transforms@[j] == Transform::zero(),
                forall|j: int|
                    old(self).ratios().len() <= j < self.aspect_ratios@.len() ==> (
                    #[trigger] self.aspect_ratios@[j]).width == 1 && self.aspect_ratios@[j].height
                        == 1,
            decreases new_len - self.transforms@.len(),
        {
            self.transforms.push(Transform::default());
            self.aspect_ratios.push(AspectRatio::default());
        }
        proof {
            assert forall|j: int| 0 <= j < self.aspect_ratios@.len() implies valid_ratio(
                #[trigger] self.aspect_ratios@[j],
            ) by {
                if j < old(self).ratios().len() {
                    assert(self.aspect_ratios@[j] == old(self).ratios()[j]);
                    assert(valid_ratio(old(self).ratios()[j]));
                } else {
                    assert(self.aspect_ratios@[j].width == 1 && self.aspect_ratios@[j].height == 1);
                }
            }
        }
    }

    /// Lays the items out as a uniform grid, row-major, and returns the
    /// total grid height. Every placement in `[0, count)` is recomputed in
    /// place; slots beyond the logical count are untouched.
    #[verifier::loop_isolation(false)]
    pub fn compute_grid(&mut self, container_width: u16) -> (r: u32)
        requires
            old(self).wf(),
            old(self).count() > 0 && old(self).thumb() > 0 ==> old(self).gap() as int
                <= column_width_of(container_width, old(self).thumb()),
            old(self).count() > 0 && old(self).thumb() > 0 ==> grid_height(
                old(self).count(),
                container_width,
                old(self).thumb(),
            ) <= u32::MAX,
        ensures
            final(self).wf(),
            final(self).count() == old(self).count(),
            final(self).thumb() == old(self).thumb(),
            final(self).gap() == old(self).gap(),
            final(self).ratios() == old(self).ratios(),
            final(self).slots().len() == old(self).slots().len(),
            (old(self).count() == 0 || old(self).thumb() == 0) ==> r == 0 && final(self).slots()
                == old(self).slots(),
            old(self).count() > 0 && old(self).thumb() > 0 ==> {
                &&& forall|i: int|
                    0 <= i < old(self).count() ==> final(self).slots()[i] == grid_slot(
                        i,
                        container_width,
                        old(self).thumb(),
                        old(self).gap(),
                    )
                &&& forall|i: int|
                    old(self).count() <= i < old(self).slots().len() ==> final(self).slots()[i]
                        == old(self).slots()[i]
                &&& r as int == grid_height(old(self).count(), container_width, old(self).thumb())
                &&& forall|i: int|
                    0 <= i < old(self).count() ==> (#[trigger] final(self).slots()[i]).top < r
                &&& forall|i: int|
                    0 <= i < old(self).count() ==> (#[trigger] final(self).slots()[i]).left
                        + column_width_of(container_width, old(self).thumb()) <= clamp_width(
                        container_width,
                        old(self).thumb(),
                    ) + old(self).thumb()
            },
    {
        if self.is_empty() || self.thumbnail_size == 0 {
            return 0;
        }
        let ghost ts = self.thumbnail_size;
        let ghost pad = self.padding;
        let (n_columns, column_width) = column_params(container_width, self.thumbnail_size);
        let ghost ncols = n_columns as int;
        let ghost colw = column_width as int;
        let item_size: u16 = column_width - self.padding;
        let row_height: u32 = column_width as u32;
        let n_cols: usize = n_columns as usize;
        let len: usize = self.len();
        let ghost rows_total = grid_rows(len as int, ncols);
        let ghost gh = grid_height(len as int, container_width, ts);
        let mut top_offset: u32 = 0;
        let mut left_offset: u32 = 0;
        let mut col: usize = 0;
        let ghost mut row: int = 0;
        let mut i: usize = 0;
        while i < len
            invariant
                0 <= i <= len,
                col < n_cols,
                0 <= row,
                i == row * ncols + col,
                top_offset == row * colw,
                left_offset == col * colw,
                row * colw <= gh,
                self.transforms@.len() == old(self).slots().len(),
                self.aspect_ratios@ == old(self).ratios(),
                self.num_items == old(self).count(),
                self.thumbnail_size == old(self).thumb(),
                self.padding == old(self).gap(),
                forall|j: int|
                    0 <= j < i ==> self.transforms@[j] == grid_slot(j, container_width, ts, pad),
                forall|j: int|
                    i <= j < self.transforms@.len() ==> self.transforms@[j] == old(self).slots()[j],
            decreases len - i,
        {
            proof {
                assert(col * colw + colw <= ncols * colw) by (nonlinear_arith)
                    requires
                        col < ncols,
                        1 <= colw,
                ;
            }
            self.transforms[i] = Transform {
                width: item_size,
                height: item_size,
                left: left_offset,
                top: top_offset,
            };
            proof {
                lemma_fundamental_div_mod_converse(i as int, ncols, row, col as int);
                assert(self.transforms@[i as int] == grid_slot(i as int, container_width, ts, pad));
            }
            i = i + 1;
            col = col + 1;
            proof {
                assert(col * colw == (col - 1) * colw + colw) by (nonlinear_arith);
            }
            left_offset = left_offset + row_height;
            if col == n_cols {
                proof {
                    assert((row + 1) * ncols == row * ncols + ncols) by (nonlinear_arith);
                    assert(row + 1 <= rows_total) by (nonlinear_arith)
                        requires
                            (row + 1) * ncols <= len,
                            1 <= ncols,
                            rows_total == (len + ncols - 1) / ncols,
                    ;
                    assert((row + 1) * colw <= rows_total * colw) by (nonlinear_arith)
                        requires
                            row + 1 <= rows_total,
                            0 <= colw,
                    ;
                    assert((row + 1) * colw == row * colw + colw) by (nonlinear_arith);
                    row = row + 1;
                }
                col = 0;
                left_offset = 0;
                top_offset = top_offset + row_height;
            }
        }
        if col != 0 {
            proof {
                assert((row + 1) * ncols == row * ncols + ncols) by (nonlinear_arith);
                lemma_fundamental_div_mod_converse(len + ncols - 1, ncols, row + 1, col - 1);
                assert(rows_total == row + 1);
                assert((row + 1) * colw == row * colw + colw) by (nonlinear_arith);
                assert(rows_total * colw == gh);
            }
            top_offset = top_offset + row_height;
        } else {
            proof {
                assert(len == row * ncols);
                lemma_fundamental_div_mod_converse(len + ncols - 1, ncols, row, ncols - 1);
                assert(rows_total == row);
                assert(rows_total * colw == gh);
            }
        }
        proof {
            assert(top_offset == gh);
            assert(len <= rows_total * ncols) by (nonlinear_arith)
                requires
                    rows_total == (len + ncols - 1) / ncols,
                    1 <= ncols,
                    0 < len,
            ;
            assert forall|j: int| 0 <= j < len implies (#[trigger] self.transforms@[j]).top
                < top_offset by {
                assert(self.transforms@[j] == grid_slot(j, container_width, ts, pad));
                let rj = j / ncols;
                let cj = j % ncols;
                assert(rj * ncols + cj == j && 0 <= cj < ncols) by {
                    vstd::arithmetic::div_mod::lemma_fundamental_div_mod(j, ncols);
                }
                assert(rj * colw < rows_total * colw) by (nonlinear_arith)
                    requires
                        rj * ncols + cj == j,
                        j < len,
                        len <= rows_total * ncols,
                        0 <= cj < ncols,
                        1 <= ncols,
                        1 <= colw,
                        0 <= rj,
                ;
            }
            assert forall|j: int| 0 <= j < len implies (#[trigger] self.transforms@[j]).left + colw
                <= clamp_width(container_width, ts) + ts by {
                assert(self.transforms@[j] == grid_slot(j, container_width, ts, pad));
                let cj = j % ncols;
                assert(0 <= cj < ncols) by {
                    vstd::arithmetic::div_mod::lemma_fundamental_div_mod(j, ncols);
                }
                assert(cj * colw + colw <= ncols * colw) by (nonlinear_arith)
                    requires
                        cj < ncols,
                        1 <= colw,
                ;
            }
        }
        top_offset
    }

    /// True when no items take part in layout.

    /// Lays the items out as balanced vertical masonry and returns the
    /// height of the tallest column. Every placement in `[0, count)` is
    /// recomputed in place; slots beyond the logical count are untouched.
    #[verifier::loop_isolation(false)]
    pub fn compute_vertical(&mut self, container_width: u16) -> (r: u32)
        requires
            old(self).wf(),
            old(self).count() > 0 && old(self).thumb() > 0 ==> old(self).gap() as int
                <= column_width_of(container_width, old(self).thumb()),
            old(self).count() > 0 && old(self).thumb() > 0 ==> old(self).count() * (8 * (old(
                self,
            ).thumb() as int) + old(self).gap() + 2) <= u32::MAX,
        ensures
            final(self).wf(),
            final(self).count() == old(self).count(),
            final(self).thumb() == old(self).thumb(),
            final(self).gap() == old(self).gap(),
            final(self).ratios() == old(self).ratios(),
            final(self).slots().len() == old(self).slots().len(),
            (old(self).count() == 0 || old(self).thumb() == 0) ==> r == 0 && final(self).slots()
                == old(self).slots(),
            old(self).count() > 0 && old(self).thumb() > 0 ==> {
                let ncols = n_columns_of(container_width, old(self).thumb());
                let colw = column_width_of(container_width, old(self).thumb());
                let iw = colw - old(self).gap();
                &&& forall|i: int|
                    0 <= i < old(self).count() ==> final(self).slots()[i] == v_slot(
                        old(self).ratios(),
                        i,
                        iw,
                        old(self).gap() as int,
                        ncols,
                        colw,
                    )
                &&& forall|i: int|
                    old(self).count() <= i < old(self).slots().len() ==> final(self).slots()[i]
                        == old(self).slots()[i]
                &&& r as int == seq_max(
                    v_heights(old(self).ratios(), old(self).count(), iw, old(self).gap() as int, ncols),
                )
                &&& forall|i: int|
                    0 <= i < old(self).count() ==> (#[trigger] final(self).slots()[i]).top <= r
                &&& forall|i: int|
                    0 <= i < old(self).count() ==> (#[trigger] final(self).slots()[i]).left + colw
                        <= clamp_width(container_width, old(self).thumb()) + old(self).thumb()
            },
    {
        if self.is_empty() || self.thumbnail_size == 0 {
            return 0;
        }
        let ghost ts = self.thumbnail_size;
        let ghost padi = self.padding as int;
        let ghost ratios0 = self.aspect_ratios@;
        let (n_columns, column_width) = column_params(container_width, self.thumbnail_size);
        let item_width: u16 = column_width - self.padding;
        let n_cols: usize = n_columns as usize;
        let ghost ncols = n_columns as int;
        let ghost colw = column_width as int;
        let ghost iw = item_width as int;
        let ghost grow = 8 * (ts as int) + padi + 2;
        let len: usize = self.len();

        let mut heights: Vec<u32> = Vec::new();
        let mut k: usize = 0;
        while k < n_cols
            invariant
                k <= n_cols,
                heights@.len() == k,
                forall|j: int| 0 <= j < k ==> heights@[j] == 0,
            decreases n_cols - k,
        {
            heights.push(0);
            k = k + 1;
        }
        proof {
            lemma_v_heights_len(ratios0, 0, iw, padi, ncols);
            assert(v_heights(ratios0, 0, iw, padi, ncols) =~= Seq::new(ncols as nat, |x: int| 0));
        }

        let mut i: usize = 0;
        while i < len
            invariant
                i <= len,
                heights@.len() == ncols,
                forall|j: int|
                    0 <= j < ncols ==> heights@[j] as int == v_heights(
                        ratios0,
                        i as int,
                        iw,
                        padi,
                        ncols,
                    )[j],
                forall|j: int| 0 <= j < ncols ==> heights@[j] as int <= i * grow,
                self.transforms@.len() == old(self).slots().len(),
                self.aspect_ratios@ == old(self).ratios(),
                self.num_items == old(self).count(),
                self.thumbnail_size == old(self).thumb(),
                self.padding == old(self).gap(),
                forall|q: int|
                    0 <= q < i ==> self.transforms@[q] == v_slot(ratios0, q, iw, padi, ncols, colw),
                forall|q: int|
                    i <= q < self.transforms@.len() ==> self.transforms@[q] == old(self).slots()[q],
            decreases len - i,
        {
            let ghost hs = v_heights(ratios0, i as int, iw, padi, ncols);
            proof {
                lemma_v_heights_len(ratios0, i as int, iw, padi, ncols);
                lemma_argmin_min(hs);
            }
            let mut best: usize = 0;
            let mut j: usize = 1;
            proof {
                assert(hs.take(1) =~= hs.subrange(0, 1));
                assert(argmin_idx(hs.take(1)) == 0);
            }
            while j < n_cols
                invariant
                    1 <= j <= n_cols,
                    best < j,
                    best as int == argmin_idx(hs.take(j as int)),
                decreases n_cols - j,
            {
                proof {
                    assert(hs.take(j as int + 1).drop_last() =~= hs.take(j as int));
                }
                if heights[j] < heights[best] {
                    best = j;
                }
                j = j + 1;
            }
            proof {
                assert(hs.take(ncols) =~= hs);
            }
            let ghost jm = argmin_idx(hs);
            proof {
                assert(best * colw + colw <= ncols * colw) by (nonlinear_arith)
                    requires
                        best < ncols,
                        1 <= colw,
                ;
            }
            let mut t: Transform = self.transforms[i];
            t.width = item_width;
            t.correct_height(item_width, &self.aspect_ratios[i]);
            t.left = (best as u32) * (column_width as u32);
            t.top = heights[best];
            proof {
                assert(t == v_slot(ratios0, i as int, iw, padi, ncols, colw));
            }
            self.transforms[i] = t;
            proof {
                lemma_ratio_height_le(iw, ratios0[i as int]);
                assert((i + 1) * grow == i * grow + grow) by (nonlinear_arith);
                assert((i + 1) * grow <= len * grow) by (nonlinear_arith)
                    requires
                        0 <= i + 1 <= len,
                        0 <= grow,
                ;
            }
            let add: u32 = (t.height as u32) + (self.padding as u32);
            heights[best] = heights[best] + add;
            i = i + 1;
            proof {
                assert(v_heights(ratios0, i as int, iw, padi, ncols) =~= hs.update(
                    jm,
                    hs[jm] + ratio_height(iw, ratios0[i - 1]) + padi,
                ));
            }
        }

        let ghost hs_end = v_heights(ratios0, len as int, iw, padi, ncols);
        proof {
            lemma_v_heights_len(ratios0, len as int, iw, padi, ncols);
        }
        let mut longest: u32 = 0;
        let mut j: usize = 0;
        proof {
            assert(hs_end.take(0) =~= Seq::<int>::empty());
        }
        while j < n_cols
            invariant
                j <= n_cols,
                longest as int == seq_max(hs_end.take(j as int)),
            decreases n_cols - j,
        {
            proof {
                assert(hs_end.take(j as int + 1).drop_last() =~= hs_end.take(j as int));
                lemma_seq_max_ge(hs_end.take(j as int));
            }
            if heights[j] > longest {
                longest = heights[j];
            }
            j = j + 1;
        }
        proof {
            assert(hs_end.take(ncols) =~= hs_end);
            lemma_seq_max_ge(hs_end);
            assert forall|q: int| 0 <= q < len implies (#[trigger] self.transforms@[q]).top
                <= longest && self.transforms@[q].left + colw <= clamp_width(container_width, ts)
                + ts by {
                let hsq = v_heights(ratios0, q, iw, padi, ncols);
                lemma_v_heights_len(ratios0, q, iw, padi, ncols);
                lemma_argmin_min(hsq);
                lemma_v_heights_mono(ratios0, q, len as int, iw, padi, ncols);
                lemma_v_heights_mono(ratios0, 0, q, iw, padi, ncols);
                lemma_v_heights_len(ratios0, 0, iw, padi, ncols);
                let jmq = argmin_idx(hsq);
                assert(v_heights(ratios0, 0, iw, padi, ncols)[jmq] == 0);
                assert(heights@[jmq] as int == hs_end[jmq]);
                assert(hsq[jmq] <= hs_end[jmq]);
                assert(0 <= hsq[jmq] <= u32::MAX);
                assert(hs_end[jmq] <= seq_max(hs_end));
                assert(argmin_idx(hsq) * colw + colw <= ncols * colw) by (nonlinear_arith)
                    requires
                        argmin_idx(hsq) < ncols,
                        1 <= colw,
                ;
            }
        }
        longest
    }


    /// Lays the items out as row-fill masonry and returns the total height.
    /// Every placement in `[0, count)` is recomputed in place; slots beyond
    /// the logical count are untouched.
    #[verifier::loop_isolation(false)]
    pub fn compute_horizontal(&mut self, container_width: u16) -> (r: u32)
        requires
            old(self).wf(),
            old(self).count() > 0 && old(self).thumb() > 0 ==> (old(self).count() + 1) * (old(
                self,
            ).thumb() + old(self).gap()) <= u32::MAX,
        ensures
            final(self).wf(),
            final(self).count() == old(self).count(),
            final(self).thumb() == old(self).thumb(),
            final(self).gap() == old(self).gap(),
            final(self).ratios() == old(self).ratios(),
            final(self).slots().len() == old(self).slots().len(),
            (old(self).count() == 0 || old(self).thumb() == 0) ==> r == 0 && final(self).slots()
                == old(self).slots(),
            old(self).count() > 0 && old(self).thumb() > 0 ==> {
                let cwc = clamp_width(container_width, old(self).thumb());
                let st = h_state(
                    old(self).ratios(),
                    old(self).count(),
                    old(self).thumb() as int,
                    old(self).gap() as int,
                    cwc,
                );
                &&& forall|i: int|
                    0 <= i < old(self).count() ==> final(self).slots()[i] == st.placed[i]
                &&& forall|i: int|
                    old(self).count() <= i < old(self).slots().len() ==> final(self).slots()[i]
                        == old(self).slots()[i]
                &&& r as int == h_total_height(
                    old(self).ratios(),
                    old(self).count(),
                    old(self).thumb() as int,
                    old(self).gap() as int,
                    cwc,
                )
                &&& forall|i: int|
                    0 <= i < old(self).count() ==> (#[trigger] final(self).slots()[i]).top <= r
                &&& forall|i: int|
                    0 <= i < old(self).count() ==> (#[trigger] final(self).slots()[i]).left <= cwc
            },
    {
        if self.is_empty() || self.thumbnail_size == 0 {
            return 0;
        }
        let ghost ts = self.thumbnail_size;
        let ghost tsi = ts as int;
        let ghost padi = self.padding as int;
        let ghost ratios0 = self.aspect_ratios@;
        let thumbnail_size_32: u32 = self.thumbnail_size as u32;
        let container_width_32: u32 = if (container_width as u32) > thumbnail_size_32 {
            container_width as u32
        } else {
            thumbnail_size_32
        };
        let ghost cwi = clamp_width(container_width, ts);
        proof {
            assert(container_width_32 as int == cwi);
        }
        let len: usize = self.len();

        let mut top_offset: u32 = 0;
        let mut cur_row_width: u32 = 0;
        let mut first_row_item_index: usize = 0;
        let mut i: usize = 0;
        while i < len
            invariant
                i <= len,
                first_row_item_index <= i,
                h_state(ratios0, i as int, tsi, padi, cwi).placed.len() == i,
                top_offset as int == h_state(ratios0, i as int, tsi, padi, cwi).top,
                cur_row_width as int == h_state(ratios0, i as int, tsi, padi, cwi).row_w,
                first_row_item_index as int == h_state(ratios0, i as int, tsi, padi, cwi).first,
                cur_row_width as int <= cwi,
                top_offset as int <= first_row_item_index * (tsi + padi),
                self.transforms@.len() == old(self).slots().len(),
                self.aspect_ratios@ == old(self).ratios(),
                self.num_items == old(self).count(),
                self.thumbnail_size == old(self).thumb(),
                self.padding == old(self).gap(),
                forall|q: int|
                    0 <= q < i ==> self.transforms@[q] == h_state(
                        ratios0,
                        i as int,
                        tsi,
                        padi,
                        cwi,
                    ).placed[q],
                forall|q: int| 0 <= q < i ==> (#[trigger] self.transforms@[q]).left <= cwi,
                forall|q: int| 0 <= q < i ==> (#[trigger] self.transforms@[q]).width <= 1985,
                forall|q: int| 0 <= q < i ==> (#[trigger] self.transforms@[q]).top <= top_offset,
                forall|q: int|
                    i <= q < self.transforms@.len() ==> self.transforms@[q] == old(self).slots()[q],
            decreases len - i,
        {
            let ghost st = h_state(ratios0, i as int, tsi, padi, cwi);
            let mut t: Transform = self.transforms[i];
            t.height = self.thumbnail_size;
            t.correct_width(self.thumbnail_size, &self.aspect_ratios[i]);
            t.top = top_offset;
            t.left = cur_row_width;
            self.transforms[i] = t;
            let ghost t0 = t;
            let ghost placed1 = st.placed.push(t0);
            let new_row_width: u32 = cur_row_width + (t.width as u32) + (self.padding as u32);
            proof {
                assert(h_state(ratios0, i as int + 1, tsi, padi, cwi) == h_step(
                    st,
                    ratios0[i as int],
                    tsi,
                    padi,
                    cwi,
                ));
                assert(t0 == (Transform {
                    width: ratio_width(tsi, ratios0[i as int]) as u16,
                    height: tsi as u16,
                    left: st.row_w as u32,
                    top: st.top as u32,
                }));
            }
            if new_row_width > container_width_32 {
                let ghost nrw = new_row_width as int;
                let ghost ch = rdiv(tsi * cwi, nrw);
                proof {
                    assert(0 <= tsi * cwi <= 655 * 65535) by (nonlinear_arith)
                        requires
                            0 <= tsi <= 655,
                            0 <= cwi <= 65535,
                    ;
                    lemma_rdiv_scale_le(tsi, cwi, nrw);
                    lemma_rdiv_bounds(tsi * cwi, nrw);
                }
                let corrected_height: u32 = div_int_u32(
                    thumbnail_size_32 * container_width_32,
                    new_row_width,
                );
                let height: u16 = corrected_height as u16;
                let ghost target = h_row_close(placed1, first_row_item_index as int, ch, cwi, nrw);
                let mut j: usize = first_row_item_index;
                while j <= i
                    invariant
                        first_row_item_index <= j <= i + 1,
                        self.transforms@.len() == old(self).slots().len(),
                        i < self.transforms@.len(),
                        self.aspect_ratios@ == old(self).ratios(),
                        self.num_items == old(self).count(),
                        self.thumbnail_size == old(self).thumb(),
                        self.padding == old(self).gap(),
                        forall|q: int| 0 <= q < j ==> self.transforms@[q] == target[q],
                        forall|q: int| j <= q <= i ==> self.transforms@[q] == placed1[q],
                        forall|q: int| 0 <= q <= i ==> (#[trigger] self.transforms@[q]).left <= cwi,
                        forall|q: int| 0 <= q <= i ==> (#[trigger] self.transforms@[q]).width <= 1985,
                        forall|q: int|
                            0 <= q <= i ==> (#[trigger] self.transforms@[q]).top <= top_offset,
                        forall|q: int|
                            i < q < self.transforms@.len() ==> self.transforms@[q] == old(
                                self,
                            ).slots()[q],
                    decreases i + 1 - j,
                {
                    let mut p: Transform = self.transforms[j];
                    proof {
                        assert(p.left * container_width_32 <= 65535 * 65535) by (nonlinear_arith)
                            requires
                                0 <= p.left <= 65535,
                                0 <= container_width_32 <= 65535,
                        ;
                        assert(p.width * container_width_32 <= 1985 * 65535) by (nonlinear_arith)
                            requires
                                0 <= p.width <= 1985,
                                0 <= container_width_32 <= 65535,
                        ;
                    }
                    p.height = height;
                    p.scale(container_width_32, new_row_width);
                    self.transforms[j] = p;
                    proof {
                        assert(self.transforms@[j as int] == target[j as int]);
                    }
                    j = j + 1;
                }
                proof {
                    assert((first_row_item_index + 1) * (tsi + padi) == first_row_item_index * (tsi
                        + padi) + (tsi + padi)) by (nonlinear_arith);
                    assert((first_row_item_index + 1) * (tsi + padi) <= (len + 1) * (tsi + padi))
                        by (nonlinear_arith)
                        requires
                            first_row_item_index + 1 <= len + 1,
                            0 <= tsi + padi,
                    ;
                    assert((i as int + 1) * (tsi + padi) <= (len + 1) * (tsi + padi))
                        by (nonlinear_arith)
                        requires
                            i + 1 <= len + 1,
                            0 <= tsi + padi,
                    ;
                    assert(first_row_item_index * (tsi + padi) + (tsi + padi) <= (i as int + 1) * (
                    tsi + padi)) by (nonlinear_arith)
                        requires
                            first_row_item_index + 1 <= i + 1,
                            0 <= tsi + padi,
                    ;
                }
                cur_row_width = 0;
                first_row_item_index = i + 1;
                top_offset = top_offset + corrected_height + (self.padding as u32);
            } else {
                cur_row_width = new_row_width;
            }
            i = i + 1;
        }
        proof {
            assert(first_row_item_index * (tsi + padi) + (tsi + padi) <= (len + 1) * (tsi + padi))
                by (nonlinear_arith)
                requires
                    first_row_item_index + 1 <= len + 1,
                    0 <= tsi + padi,
            ;
        }
        if cur_row_width == 0 {
            top_offset
        } else {
            top_offset + thumbnail_size_32 + (self.padding as u32)
        }
    }

    /// True when no items take part in layout.
    pub(crate) fn is_empty(&self) -> (r: bool)
        ensures
            r == (self.count() == 0),
    {
        self.num_items == 0
    }

    /// Number of items taking part in layout.
    pub(crate) fn len(&self) -> (r: usize)
        ensures
            r as int == self.count(),
    {
        self.num_items
    }
}

} // verus!
