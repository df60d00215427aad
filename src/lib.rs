//! Pixel sorting: every row of an image is reordered by a colour metric
//! (hue, saturation, lightness or brightness) while keeping the row's pixels.
pub mod key;
pub mod laws;
pub mod pixel;
pub mod sort;

pub use key::SortKey;
pub use pixel::{Image, Rgb};
pub use sort::{sort_pixels, sort_row, SortMode};
