//! Row-major pixel grids.

use vstd::prelude::*;
use crate::error::DepthMapError;

verus! {

/// An opaque colour of three 8-bit channels.
#[derive(Clone, Copy, Debug, PartialEq, Eq, Structural)]
pub struct Rgb {
    pub r: u8,
    pub g: u8,
    pub b: u8,
}

/// A `width` by `height` grid of samples, stored row by row.
///
/// The sample at column `x` of row `y` is element `y * width + x` of the view.
#[derive(Debug)]
pub struct Raster<T> {
    width: u32,
    height: u32,
    samples: Vec<T>,
}

/// A single-channel grid of 16-bit depth samples.
pub type Raster16 = Raster<u16>;

/// A single-channel grid of 8-bit samples.
pub type Raster8 = Raster<u8>;

/// A grid of opaque colour pixels.
pub type RasterRgb = Raster<Rgb>;

impl<T> View for Raster<T> {
    type V = Seq<T>;

    closed spec fn view(&self) -> Seq<T> {
        self.samples@
    }
}

impl<T> Raster<T> {
    #[verifier::type_invariant]
    spec fn area_matches(&self) -> bool {
        self.samples@.len() == self.width * self.height
    }

    /// Number of columns.
    pub closed spec fn spec_width(&self) -> nat {
        self.width as nat
    }

    /// Number of rows.
    pub closed spec fn spec_height(&self) -> nat {
        self.height as nat
    }

    /// Assembles a raster from its dimensions and its samples in row-major
    /// order. Fails with an input error exactly when the number of samples is
    /// not `width * height`.
    pub fn new(width: u32, height: u32, samples: Vec<T>) -> (res: Result<Raster<T>, DepthMapError>)
        ensures
            res is Ok <==> samples@.len() == width * height,
            res matches Ok(r) ==> r@ == samples@ && r.spec_width() == width && r.spec_height()
                == height,
            res matches Err(e) ==> e.kind == crate::error::ErrorKind::InputError && e.message@
                == crate::error::size_mismatch_message(),
    {
        assert(width * height <= u64::MAX) by (nonlinear_arith)
            requires
                width <= u32::MAX,
                height <= u32::MAX,
        ;
        let area: u64 = (width as u64) * (height as u64);
        if samples.len() as u64 == area {
            Ok(Raster { width, height, samples })
        } else {
            Err(DepthMapError::size_mismatch())
        }
    }

    /// Assembles a raster whose sample count is already known to fit.
    pub(crate) fn from_parts(width: u32, height: u32, samples: Vec<T>) -> (r: Raster<T>)
        requires
            samples@.len() == width * height,
        ensures
            r@ == samples@,
            r.spec_width() == width,
            r.spec_height() == height,
    {
        Raster { width, height, samples }
    }

    /// Number of columns.
    pub fn width(&self) -> (w: u32)
        ensures
            w == self.spec_width(),
    {
        self.width
    }

    /// Number of rows.
    pub fn height(&self) -> (h: u32)
        ensures
            h == self.spec_height(),
    {
        self.height
    }

    /// The samples in row-major order; there are `width * height` of them.
    pub fn samples(&self) -> (s: &Vec<T>)
        ensures
            s@ == self@,
            s@.len() == self.spec_width() * self.spec_height(),
    {
        proof {
            use_type_invariant(self);
        }
        &self.samples
    }

    /// Gives the samples up, in row-major order.
    pub fn into_samples(self) -> (s: Vec<T>)
        ensures
            s@ == self@,
            s@.len() == self.spec_width() * self.spec_height(),
    {
        proof {
            use_type_invariant(&self);
        }
        self.samples
    }

    /// The sample at column `x` of row `y`, or `None` outside the grid.
    pub fn get(&self, x: u32, y: u32) -> (res: Option<&T>)
        ensures
            res is Some <==> x < self.spec_width() && y < self.spec_height(),
            res matches Some(v) ==> 0 <= y * self.spec_width() + x < self@.len() && *v
                == self@[y * self.spec_width() + x],
    {
        proof {
            use_type_invariant(self);
        }
        if x < self.width && y < self.height {
            assert(0 <= y * self.width && y * self.width + x < self.width * self.height)
                by (nonlinear_arith)
                requires
                    x < self.width,
                    y < self.height,
            ;
            assert(self.samples.len() == self.samples@.len());
            let row_start: usize = (y as usize) * (self.width as usize);
            Some(&self.samples[row_start + x as usize])
        } else {
            None
        }
    }
}

/// One channel of a colour: 0 is red, 1 is green, anything else is blue.
pub open spec fn channel(color: Rgb, index: int) -> u8 {
    if index == 0 {
        color.r
    } else if index == 1 {
        color.g
    } else {
        color.b
    }
}

/// The bytes of a sequence of colours: red, green and blue of each in turn.
pub open spec fn interleaved(pixels: Seq<Rgb>) -> Seq<u8> {
    Seq::new(3 * pixels.len(), |k: int| channel(pixels[k / 3], k % 3))
}

impl Raster<Rgb> {
    /// The raster as the bytes an encoder takes: three for each pixel, in
    /// row-major order.
    pub fn to_bytes(&self) -> (bytes: Vec<u8>)
        ensures
            bytes@ == interleaved(self@),
    {
        let pixels = self.samples();
        let n: usize = pixels.len();
        let mut bytes: Vec<u8> = Vec::new();
        let mut i: usize = 0;
        while i < n
            invariant
                i <= n,
                n == pixels@.len(),
                bytes@.len() == 3 * i,
                forall|k: int| 0 <= k < 3 * i ==> bytes@[k] == channel(pixels@[k / 3], k % 3),
            decreases n - i,
        {
            let pixel: Rgb = pixels[i];
            bytes.push(pixel.r);
            bytes.push(pixel.g);
            bytes.push(pixel.b);
            i += 1;
        }
        assert(bytes@ =~= interleaved(self@));
        bytes
    }
}

} // verus!
