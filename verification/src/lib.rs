//! Depth-map normalisation.
//!
//! A 16-bit single-channel depth raster is rescaled to 8 bits over the range
//! of its own samples, and the 8-bit raster can be rendered in false colour
//! through a 256-entry colour map.

pub mod colormap;
pub mod error;
pub mod normalize;
pub mod pipeline;
pub mod range;
pub mod raster;

pub use colormap::{colorize, Colormap};
pub use error::{DepthMapError, ErrorKind};
pub use normalize::{normalize, normalize_value};
pub use pipeline::{process_depth_map, process_with_colormap, DepthMapOutput, DepthMapStats};
pub use range::{find_range, Range};
pub use raster::{Raster, Raster16, Raster8, RasterRgb, Rgb};
