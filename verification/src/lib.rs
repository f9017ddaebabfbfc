//! Two small verified routines: an in-place selection sort over vectors of
//! 32-bit signed integers, and the single-precision absolute-value branch
//! modelled on its IEEE-754 bit encoding.

pub mod fabs;
pub mod sort;

pub use fabs::fabs_bits;
pub use sort::selection_sort;
