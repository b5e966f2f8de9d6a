//! Per-item placement and the arithmetic that derives one side of an item
//! from the other through its normalized aspect ratio.

use vstd::prelude::*;
use crate::rounding::{
    rdiv, rdiv_sat_u16, div_int_u16, div_int_u32, lemma_rdiv_bounds, lemma_rdiv_scale_le,
};
use crate::aspect::{AspectRatio, valid_ratio};

verus! {

/// Computed on-screen position and size of one item. All fields are zero
/// until a packer fills them in.
#[derive(Clone, Copy, PartialEq, Eq, Structural)]
pub struct Transform {
    pub width: u16,
    pub height: u16,
    pub left: u32,
    pub top: u32,
}

impl Transform {
    /// The all-zero placement every slot starts from.
    pub open spec fn zero() -> Transform {
        Transform { width: 0, height: 0, left: 0, top: 0 }
    }
}

impl Default for Transform {
    fn default() -> (r: Self)
        ensures
            r == Transform::zero(),
    {
        Transform { width: 0, height: 0, left: 0, top: 0 }
    }
}

/// Width of an item whose height is pinned at `ts`, derived from its ratio:
/// `round_div(ts * ratio.width, ratio.height)` with the saturating `u16`
/// numerator the executable division uses.
pub open spec fn ratio_width(ts: int, r: AspectRatio) -> int {
    rdiv_sat_u16(ts * r.width, r.height as int)
}

/// Height of an item whose width is pinned at `iw`, derived from its ratio:
/// `round_div(iw * ratio.height, ratio.width)`.
pub open spec fn ratio_height(iw: int, r: AspectRatio) -> int {
    rdiv(iw * r.height, r.width as int)
}

/// A coordinate rescaled by `total / cur`, rounding to nearest.
pub open spec fn scale_val(v: int, total: int, cur: int) -> int {
    rdiv(v * total, cur)
}

/// With the thumbnail size capped at 655 and a valid ratio, the derived
/// width is at most `round_div(65550, 33) = 1985`.
pub proof fn lemma_ratio_width_le(ts: int, r: AspectRatio)
    requires
        0 <= ts <= 655,
        valid_ratio(r),
    ensures
        0 <= ratio_width(ts, r) <= 1985,
{
    let a = ts * r.width;
    let b = r.height as int;
    assert(0 <= ts * r.width <= 65500) by (nonlinear_arith)
        requires
            0 <= ts <= 655,
            0 <= r.width <= 100,
    ;
    lemma_rdiv_bounds(a, b);
    if r.width == 1 && r.height == 1 {
        assert(a == ts) by (nonlinear_arith)
            requires
                a == ts * r.width,
                r.width == 1,
        ;
        assert(rdiv(a, 1) == a) by (nonlinear_arith)
            requires
                0 <= a,
        ;
    } else {
        assert(b >= 33);
        if a + b / 2 <= u16::MAX {
            assert(rdiv(a, b) <= 1985) by (nonlinear_arith)
                requires
                    0 <= a <= 65500,
                    33 <= b,
            ;
        } else {
            assert((u16::MAX as int) / b <= 1985) by (nonlinear_arith)
                requires
                    33 <= b,
            ;
        }
    }
}

/// With a valid ratio the derived height is at most four times the width
/// plus two: the ratio is bounded near three-to-one.
pub proof fn lemma_ratio_height_le(iw: int, r: AspectRatio)
    requires
        0 <= iw,
        valid_ratio(r),
    ensures
        0 <= ratio_height(iw, r) <= 4 * iw + 2,
{
    let a = iw * r.height;
    let b = r.width as int;
    assert(0 <= iw * r.height <= 100 * iw) by (nonlinear_arith)
        requires
            0 <= iw,
            0 <= r.height <= 100,
    ;
    lemma_rdiv_bounds(a, b);
    if r.width == 1 && r.height == 1 {
        assert(a == iw) by (nonlinear_arith)
            requires
                a == iw * r.height,
                r.height == 1,
        ;
        assert(rdiv(a, 1) == a) by (nonlinear_arith)
            requires
                0 <= a,
        ;
    } else {
        assert((iw * r.height + b / 2) / b <= 4 * iw + 2) by (nonlinear_arith)
            requires
                33 <= b,
                0 <= iw,
                0 <= r.height <= 100,
        ;
    }
}

impl Transform {
    /// Rescales the horizontal coordinates by `total_width / current_width`,
    /// rounding to nearest; height and top are untouched.
    pub fn scale(&mut self, total_width: u32, current_width: u32)
        requires
            1 <= current_width,
            total_width < current_width,
            old(self).left * total_width + current_width / 2 <= u32::MAX,
            old(self).width * total_width + current_width / 2 <= u32::MAX,
        ensures
            final(self).left as int == scale_val(old(self).left as int, total_width as int, current_width as int),
            final(self).width as int == scale_val(old(self).width as int, total_width as int, current_width as int),
            final(self).left <= old(self).left,
            final(self).width <= old(self).width,
            final(self).height == old(self).height,
            final(self).top == old(self).top,
    {
        proof {
            lemma_rdiv_scale_le(old(self).left as int, total_width as int, current_width as int);
            lemma_rdiv_scale_le(old(self).width as int, total_width as int, current_width as int);
            lemma_rdiv_bounds(old(self).left * total_width, current_width as int);
            lemma_rdiv_bounds(old(self).width * total_width, current_width as int);
        }
        self.left = div_int_u32(self.left * total_width, current_width);
        self.width = div_int_u32((self.width as u32) * total_width, current_width) as u16;
    }

    /// Sets the height an item of the given width takes under its ratio.
    pub fn correct_height(&mut self, width: u16, aspect_ratio: &AspectRatio)
        requires
            width <= 1310,
            valid_ratio(*aspect_ratio),
        ensures
            final(self).height as int == ratio_height(width as int, *aspect_ratio),
            final(self).height <= 4 * width + 2,
            final(self).width == old(self).width,
            final(self).left == old(self).left,
            final(self).top == old(self).top,
    {
        proof {
            lemma_ratio_height_le(width as int, *aspect_ratio);
            assert(0 <= width * aspect_ratio.height <= 131000) by (nonlinear_arith)
                requires
                    width <= 1310,
                    aspect_ratio.height <= 100,
            ;
        }
        self.height = div_int_u32((width as u32) * (aspect_ratio.height as u32), aspect_ratio.width as u32) as u16;
    }

    /// Sets the width an item of the given height takes under its ratio.
    pub fn correct_width(&mut self, height: u16, aspect_ratio: &AspectRatio)
        requires
            height <= 655,
            valid_ratio(*aspect_ratio),
        ensures
            final(self).width as int == ratio_width(height as int, *aspect_ratio),
            final(self).width <= 1985,
            final(self).height == old(self).height,
            final(self).left == old(self).left,
            final(self).top == old(self).top,
    {
        proof {
            lemma_ratio_width_le(height as int, *aspect_ratio);
            assert(height * aspect_ratio.width <= 65500) by (nonlinear_arith)
                requires
                    height <= 655,
                    aspect_ratio.width <= 100,
            ;
        }
        self.width = div_int_u16(height * aspect_ratio.width, aspect_ratio.height);
    }
}

} // verus!
