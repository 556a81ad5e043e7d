//! Deterministic image-composition engine: stitches a sequence of encoded
//! images into one PNG, vertically, horizontally, or in "smart" vertical mode
//! that removes repeated chrome bars and scrolled overlap between captures.

pub mod chrome;
pub mod dimension;
pub mod error;
pub mod exif;
pub mod grid;
pub mod merge;
pub mod overlap;
pub mod types;

pub use chrome::{ChromeTrim, compute_chrome_trims};
pub use dimension::{compute_output_size, compute_scaled_dimensions, compute_target_dimension};
pub use error::MergeError;
pub use exif::{Orientation, extract_orientation};
pub use grid::{GrayGrid, RgbaGrid, normalize_orientation, scale_image};
pub use merge::{PreparedMerge, blend_with_background, compose_merge, pair_overlap_search, prepare_merge};
pub use overlap::{OverlapSearch, accept_match};
pub use types::{BackgroundColor, Direction, MergeOptions, default_overlap_sensitivity};
