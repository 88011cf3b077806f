//! The coloriser: 8-bit samples rendered through a colour map.

use vstd::prelude::*;
use crate::raster::{Raster8, RasterRgb, Rgb};

verus! {

/// Number of entries of a colour map: one for each 8-bit sample value.
pub const LEVELS: usize = 256;

/// A colour gradient sampled at the 256 positions `level / 255`.
///
/// The view is the table of colours: entry `level` is the colour of the
/// gradient at position `level / 255`, so entry 0 and entry 255 are its two
/// ends. A map always has all 256 entries, and a sample value is the only
/// way to address it: no position outside the gradient can be asked for.
#[derive(Debug)]
pub struct Colormap {
    table: Vec<Rgb>,
}

impl View for Colormap {
    type V = Seq<Rgb>;

    closed spec fn view(&self) -> Seq<Rgb> {
        self.table@
    }
}

/// The colours that `colorgrad`'s Turbo gradient has at `n` positions spread
/// evenly over the gradient, from its first colour to its last, each reduced
/// to 8-bit red, green and blue.
pub uninterp spec fn turbo_colors(n: nat) -> Seq<Rgb>;

/// Asks `colorgrad` for `n` colours of its Turbo gradient: calls
/// `colorgrad::preset::turbo`, then `Gradient::colors` on that gradient, and
/// turns each colour into bytes with `Color::to_rgba8`, leaving alpha out.
///
/// Not proved, but taken from `colorgrad`: `colors(n)` returns exactly `n`
/// colours, and the result is determined by `n` alone (the gradient is a
/// fixed polynomial in the position, evaluated at `i / (n - 1)`).
#[verifier::external_body]
fn turbo_palette(n: usize) -> (colors: Vec<Rgb>)
    ensures
        colors@.len() == n,
        colors@ == turbo_colors(n as nat),
{
    let gradient = colorgrad::preset::turbo();
    let colors = colorgrad::Gradient::colors(&gradient, n);
    colors.iter().map(
        |c| {
            let p = c.to_rgba8();
            Rgb { r: p[0], g: p[1], b: p[2] }
        },
    ).collect()
}

impl Colormap {
    #[verifier::type_invariant]
    spec fn covers_all_levels(&self) -> bool {
        self.table@.len() == LEVELS
    }

    /// Makes a colour map of a table with one colour for each sample value.
    /// Returns `None` exactly when the table does not have 256 entries.
    pub fn from_table(table: Vec<Rgb>) -> (res: Option<Colormap>)
        ensures
            res is Some <==> table@.len() == LEVELS,
            res matches Some(cm) ==> cm@ == table@,
    {
        if table.len() == LEVELS {
            Some(Colormap { table })
        } else {
            None
        }
    }

    /// The Turbo colour map.
    pub fn turbo() -> (cm: Colormap)
        ensures
            cm@ == turbo_colors(LEVELS as nat),
            cm@.len() == LEVELS,
    {
        Colormap { table: turbo_palette(LEVELS) }
    }

    /// The colour for one sample value: the gradient at `level / 255`.
    pub fn sample(&self, level: u8) -> (color: Rgb)
        ensures
            self@.len() == LEVELS,
            color == self@[level as int],
    {
        proof {
            use_type_invariant(self);
        }
        self.table[level as usize]
    }
}

/// The pixels of the colorised raster: each sample looked up in the table.
pub open spec fn colorized(samples: Seq<u8>, table: Seq<Rgb>) -> Seq<Rgb> {
    Seq::new(samples.len(), |i: int| table[samples[i] as int])
}

/// Produces the colour raster of the same dimensions in which every pixel is
/// the colour that `colormap` has for the input's sample.
pub fn colorize(raster: &Raster8, colormap: &Colormap) -> (out: RasterRgb)
    ensures
        out.spec_width() == raster.spec_width(),
        out.spec_height() == raster.spec_height(),
        out@ == colorized(raster@, colormap@),
{
    let samples = raster.samples();
    let n: usize = samples.len();
    let mut pixels: Vec<Rgb> = Vec::with_capacity(n);
    let mut i: usize = 0;
    while i < n
        invariant
            i <= n,
            n == samples@.len(),
            pixels@.len() == i,
            forall|k: int| 0 <= k < i ==> pixels@[k] == colormap@[samples@[k] as int],
        decreases n - i,
    {
        pixels.push(colormap.sample(samples[i]));
        i += 1;
    }
    assert(pixels@ =~= colorized(raster@, colormap@));
    RasterRgb::from_parts(raster.width(), raster.height(), pixels)
}

/// Colorising is a function of the samples and the table alone: equal inputs
/// give equal rasters, and equal samples get equal colours wherever they stand.
pub proof fn lemma_colorize_is_deterministic(first: Seq<u8>, second: Seq<u8>, table: Seq<Rgb>)
    ensures
        first == second ==> colorized(first, table) == colorized(second, table),
        forall|i: int, j: int|
            0 <= i < first.len() && 0 <= j < second.len() && first[i] == second[j]
                ==> #[trigger] colorized(first, table)[i] == #[trigger] colorized(
                second,
                table,
            )[j],
{
}

} // verus!
