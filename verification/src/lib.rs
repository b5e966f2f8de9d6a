//! Masonry layout geometry: places a batch of rectangular items, each known
//! only by its source aspect ratio, into a container of a given width, by one
//! of three packing strategies (row-fill masonry, column-balanced masonry, or
//! a uniform grid), and returns the resulting total height.

pub mod rounding;
pub mod aspect;
pub mod transform;
pub mod columns;
pub mod layout;
pub mod vertical;
pub mod horizontal;
pub mod laws;
