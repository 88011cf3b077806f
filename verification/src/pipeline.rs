//! The whole run: range, normalisation, optional false colour, and the
//! summary that is reported for it.

use vstd::prelude::*;
use crate::colormap::{Colormap, LEVELS, colorize, colorized, turbo_colors};
use crate::error::{DepthMapError, ErrorKind, empty_raster_message};
use crate::normalize::{normalize, normalized};
use crate::range::{find_range, sample_range};
use crate::raster::{Raster16, Raster8, RasterRgb};

verus! {

/// Raw depth samples are taken to be millimetres; this many make a metre.
pub const MILLIMETERS_PER_METER: u16 = 1000;

/// Summary of one run.
#[derive(Clone, Copy, Debug, PartialEq, Eq, Structural)]
pub struct DepthMapStats {
    pub width: u32,
    pub height: u32,
    pub min_val: u16,
    pub max_val: u16,
    /// The raster's first sample, in the raw unit (millimetres).
    pub sample_depth_mm: u16,
}

/// What one run produces.
#[derive(Debug)]
pub struct DepthMapOutput {
    /// The normalised 8-bit raster.
    pub grayscale: Raster8,
    /// The false-colour raster, when one was asked for.
    pub visualization: Option<RasterRgb>,
    pub stats: DepthMapStats,
}

/// The summary of a run over a raster of the given dimensions and samples.
pub open spec fn stats_of(width: nat, height: nat, samples: Seq<u16>) -> DepthMapStats {
    DepthMapStats {
        width: width as u32,
        height: height as u32,
        min_val: sample_range(samples).min,
        max_val: sample_range(samples).max,
        sample_depth_mm: samples[0],
    }
}

/// Normalises `depth` over the range of its own samples and, when a colour
/// map is given, renders the normalised raster through it.
///
/// Fails, with a precondition violation, exactly when `depth` has no samples.
pub fn process_with_colormap(depth: &Raster16, colormap: Option<&Colormap>) -> (res: Result<
    DepthMapOutput,
    DepthMapError,
>)
    ensures
        res is Err <==> depth@.len() == 0,
        res matches Err(e) ==> e.kind == ErrorKind::PreconditionViolation && e.message@
            == empty_raster_message(),
        res matches Ok(out) ==> {
            &&& out.grayscale.spec_width() == depth.spec_width()
            &&& out.grayscale.spec_height() == depth.spec_height()
            &&& out.grayscale@ == normalized(depth@, sample_range(depth@))
            &&& out.visualization is Some <==> colormap is Some
            &&& out.visualization matches Some(viz) ==> {
                &&& viz.spec_width() == depth.spec_width()
                &&& viz.spec_height() == depth.spec_height()
                &&& viz@ == colorized(out.grayscale@, colormap->Some_0@)
            }
            &&& out.stats == stats_of(depth.spec_width(), depth.spec_height(), depth@)
        },
{
    let range = match find_range(depth) {
        Ok(range) => range,
        Err(e) => {
            return Err(e);
        },
    };
    let sample_depth_mm: u16 = depth.samples()[0];
    let grayscale = normalize(depth, range);
    let visualization = match colormap {
        Some(cm) => Some(colorize(&grayscale, cm)),
        None => None,
    };
    let stats = DepthMapStats {
        width: depth.width(),
        height: depth.height(),
        min_val: range.min,
        max_val: range.max,
        sample_depth_mm,
    };
    Ok(DepthMapOutput { grayscale, visualization, stats })
}

/// Normalises `depth` over the range of its own samples and, when
/// `visualize` is set, renders the normalised raster in the Turbo colours.
///
/// Fails, with a precondition violation, exactly when `depth` has no samples.
pub fn process_depth_map(depth: &Raster16, visualize: bool) -> (res: Result<
    DepthMapOutput,
    DepthMapError,
>)
    ensures
        res is Err <==> depth@.len() == 0,
        res matches Err(e) ==> e.kind == ErrorKind::PreconditionViolation && e.message@
            == empty_raster_message(),
        res matches Ok(out) ==> {
            &&& out.grayscale.spec_width() == depth.spec_width()
            &&& out.grayscale.spec_height() == depth.spec_height()
            &&& out.grayscale@ == normalized(depth@, sample_range(depth@))
            &&& out.visualization is Some <==> visualize
            &&& out.visualization matches Some(viz) ==> {
                &&& viz.spec_width() == depth.spec_width()
                &&& viz.spec_height() == depth.spec_height()
                &&& viz@ == colorized(out.grayscale@, turbo_colors(LEVELS as nat))
            }
            &&& out.stats == stats_of(depth.spec_width(), depth.spec_height(), depth@)
        },
{
    if visualize {
        let turbo = Colormap::turbo();
        process_with_colormap(depth, Some(&turbo))
    } else {
        process_with_colormap(depth, None)
    }
}

} // verus!
