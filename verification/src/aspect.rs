//! Aspect-ratio normalization.
//!
//! Raw source pixel dimensions are converted into a bounded ratio: the longer
//! side is fixed at 100 and the shorter side is rounded to
//! `round_div(100 * shorter, longer)` but never below `100 / 3 = 33`, so an
//! extreme panorama or strip is effectively cropped to about three-to-one and
//! cannot dominate a row or column. Equal source sides give `(1, 1)`.

use vstd::prelude::*;
use crate::rounding::{rdiv, div_int_u32, lemma_rdiv_bounds, lemma_rdiv_scale_le};

verus! {

/// Smallest value the shorter ratio component is clamped to.
pub const MIN_RATIO_COMPONENT: u32 = 100 / 3;

/// Normalized width-to-height ratio of one item, bounded so that no single
/// item can force an arbitrarily long row or column.
#[derive(Clone, Copy, PartialEq, Eq, Structural)]
pub struct AspectRatio {
    pub width: u16,
    pub height: u16,
}

impl Default for AspectRatio {
    /// An item whose source dimensions were never supplied behaves as a
    /// square, the same ratio the normalizer gives equal source sides.
    fn default() -> (r: Self)
        ensures
            r.width == 1 && r.height == 1,
    {
        AspectRatio { width: 1, height: 1 }
    }
}

/// The invariant every stored ratio satisfies: either the square marker
/// `(1, 1)`, or both components lie in `[33, 100]` with the longer side
/// pinned at 100.
pub open spec fn valid_ratio(r: AspectRatio) -> bool {
    ||| (r.width == 1 && r.height == 1)
    ||| (33 <= r.width <= 100 && 33 <= r.height <= 100 && (r.width == 100 || r.height == 100))
}

/// The normalized ratio of raw source dimensions `(w, h)`.
pub open spec fn normalize(w: u16, h: u16) -> AspectRatio {
    if w > h {
        let scaled = rdiv(100 * (h as int), w as int);
        let clamped = if scaled < 33 { 33int } else { scaled };
        AspectRatio { width: 100, height: clamped as u16 }
    } else if h > w {
        let scaled = rdiv(100 * (w as int), h as int);
        let clamped = if scaled < 33 { 33int } else { scaled };
        AspectRatio { width: clamped as u16, height: 100 }
    } else {
        AspectRatio { width: 1, height: 1 }
    }
}

/// The rounded shorter side of a normalized ratio never exceeds 100.
pub proof fn lemma_normalize_valid(w: u16, h: u16)
    ensures
        valid_ratio(normalize(w, h)),
{
    if w > h {
        lemma_rdiv_bounds(100 * (h as int), w as int);
        lemma_rdiv_scale_le(100, h as int, w as int);
    } else if h > w {
        lemma_rdiv_bounds(100 * (w as int), h as int);
        lemma_rdiv_scale_le(100, w as int, h as int);
    }
}

/// Crops images with extreme aspect ratios: the longer side is fixed at 100
/// and the shorter side is rounded and clamped to at least 33, so the result
/// is at most about three times as wide as tall or vice versa.
pub fn correct_aspect_ratio(w: u16, h: u16) -> (r: (u16, u16))
    ensures
        r.0 == normalize(w, h).width,
        r.1 == normalize(w, h).height,
        valid_ratio(AspectRatio { width: r.0, height: r.1 }),
{
    proof {
        lemma_normalize_valid(w, h);
    }
    if w > h {
        proof {
            lemma_rdiv_bounds(100 * (h as int), w as int);
            lemma_rdiv_scale_le(100, h as int, w as int);
        }
        let scaled: u32 = div_int_u32(100 * (h as u32), w as u32);
        let clamped: u32 = if scaled < MIN_RATIO_COMPONENT {
            MIN_RATIO_COMPONENT
        } else {
            scaled
        };
        (100, clamped as u16)
    } else if h > w {
        proof {
            lemma_rdiv_bounds(100 * (w as int), h as int);
            lemma_rdiv_scale_le(100, w as int, h as int);
        }
        let scaled: u32 = div_int_u32(100 * (w as u32), h as u32);
        let clamped: u32 = if scaled < MIN_RATIO_COMPONENT {
            MIN_RATIO_COMPONENT
        } else {
            scaled
        };
        (clamped as u16, 100)
    } else {
        (1, 1)
    }
}

impl AspectRatio {
    /// Stores the normalized ratio of the given raw source dimensions.
    pub fn set(&mut self, src_width: u16, src_height: u16)
        ensures
            *final(self) == normalize(src_width, src_height),
            valid_ratio(*final(self)),
    {
        let (width, height) = correct_aspect_ratio(src_width, src_height);
        self.width = width;
        self.height = height;
    }
}

} // verus!
