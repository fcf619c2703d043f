use vstd::prelude::*;
use crate::color::{Rgb, Rgba};
use crate::error::WatermarkError;

verus! {

/// An image as mathematics: its dimensions, whether it carries alpha, and its
/// pixels in row-major order.
pub struct ImageView {
    pub width: nat,
    pub height: nat,
    pub has_alpha: bool,
    pub pixels: Seq<Rgba>,
}

impl ImageView {
    /// There is one pixel for each place, and an image without alpha is opaque.
    pub open spec fn wf(self) -> bool {
        &&& self.width <= u32::MAX
        &&& self.height <= u32::MAX
        &&& self.pixels.len() == self.width * self.height
        &&& !self.has_alpha ==> forall|i: int|
            0 <= i < self.pixels.len() ==> (#[trigger] self.pixels[i]).a == 255
    }

    /// The pixel in column `x` of row `y`.
    pub open spec fn pixel_at(self, x: int, y: int) -> Rgba {
        self.pixels[y * self.width + x]
    }

    /// How many samples a pixel has.
    pub open spec fn channels(self) -> int {
        if self.has_alpha {
            4
        } else {
            3
        }
    }

    /// The samples of the image in one run, pixel after pixel.
    pub open spec fn samples(self) -> Seq<u8> {
        Seq::new(
            (self.channels() * self.pixels.len()) as nat,
            |k: int| sample_of_pixel(self.pixels[k / self.channels()], k % self.channels()),
        )
    }
}

/// The sample of `p` in place `channel`: red, green, blue, alpha.
pub open spec fn sample_of_pixel(p: Rgba, channel: int) -> u8 {
    if channel == 0 {
        p.r
    } else if channel == 1 {
        p.g
    } else if channel == 2 {
        p.b
    } else {
        p.a
    }
}

/// The opaque pixels that a run of red, green and blue samples holds.
pub open spec fn pixels_of_rgb_samples(samples: Seq<u8>) -> Seq<Rgba> {
    Seq::new(
        samples.len() / 3,
        |i: int| Rgba { r: samples[3 * i], g: samples[3 * i + 1], b: samples[3 * i + 2], a: 255 },
    )
}

/// The pixels that a run of red, green, blue and alpha samples holds.
pub open spec fn pixels_of_rgba_samples(samples: Seq<u8>) -> Seq<Rgba> {
    Seq::new(
        samples.len() / 4,
        |i: int|
            Rgba {
                r: samples[4 * i],
                g: samples[4 * i + 1],
                b: samples[4 * i + 2],
                a: samples[4 * i + 3],
            },
    )
}

/// A raster image of 8-bit samples, with or without alpha.
#[derive(Debug)]
pub struct Image {
    width: u32,
    height: u32,
    has_alpha: bool,
    pixels: Vec<Rgba>,
}

impl View for Image {
    type V = ImageView;

    closed spec fn view(&self) -> ImageView {
        ImageView {
            width: self.width as nat,
            height: self.height as nat,
            has_alpha: self.has_alpha,
            pixels: self.pixels@,
        }
    }
}

/// Whether `len` entries make one for each place of a `width` by `height` image,
/// `per_pixel` entries to the pixel.
fn fills(len: usize, width: u32, height: u32, per_pixel: u8) -> (b: bool)
    requires
        1 <= per_pixel <= 4,
    ensures
        b == (len == per_pixel * (width * height)),
{
    assert(0 <= width * height <= 0xffff_ffff * 0xffff_ffff) by (nonlinear_arith)
        requires
            0 <= width <= 0xffff_ffff,
            0 <= height <= 0xffff_ffff,
    ;
    let places: u128 = (width as u128) * (height as u128);
    assert(0 <= per_pixel * places <= 4 * (0xffff_ffff * 0xffff_ffff)) by (nonlinear_arith)
        requires
            1 <= per_pixel <= 4,
            0 <= places <= 0xffff_ffff * 0xffff_ffff,
    ;
    len as u128 == (per_pixel as u128) * places
}

impl Image {
    #[verifier::type_invariant]
    spec fn inv(self) -> bool {
        self@.wf()
    }

    /// An image with alpha of the given pixels, in row-major order. It is refused
    /// unless there is one pixel for each place.
    pub fn from_rgba(width: u32, height: u32, pixels: Vec<Rgba>) -> (result: Result<
        Image,
        WatermarkError,
    >)
        ensures
            match result {
                Ok(image) => {
                    &&& pixels@.len() == width * height
                    &&& image@ == (ImageView {
                        width: width as nat,
                        height: height as nat,
                        has_alpha: true,
                        pixels: pixels@,
                    })
                    &&& image@.wf()
                },
                Err(e) => pixels@.len() != width * height && e == WatermarkError::DimensionMismatch,
            },
    {
        if !fills(pixels.len(), width, height, 1) {
            return Err(WatermarkError::DimensionMismatch);
        }
        Ok(Image { width, height, has_alpha: true, pixels })
    }

    /// An image without alpha of the given pixels, in row-major order. It is refused
    /// unless there is one pixel for each place.
    pub fn from_rgb(width: u32, height: u32, pixels: &[Rgb]) -> (result: Result<
        Image,
        WatermarkError,
    >)
        ensures
            match result {
                Ok(image) => {
                    &&& pixels@.len() == width * height
                    &&& image@ == (ImageView {
                        width: width as nat,
                        height: height as nat,
                        has_alpha: false,
                        pixels: pixels@.map_values(|p: Rgb| p.spec_opaque()),
                    })
                    &&& image@.wf()
                },
                Err(e) => pixels@.len() != width * height && e == WatermarkError::DimensionMismatch,
            },
    {
        if !fills(pixels.len(), width, height, 1) {
            return Err(WatermarkError::DimensionMismatch);
        }
        let mut opaque: Vec<Rgba> = Vec::new();
        for i in 0..pixels.len()
            invariant
                opaque@.len() == i,
                forall|j: int| 0 <= j < i ==> opaque@[j] == (#[trigger] pixels@[j]).spec_opaque(),
        {
            opaque.push(pixels[i].opaque());
        }
        assert(opaque@ =~= pixels@.map_values(|p: Rgb| p.spec_opaque()));
        Ok(Image { width, height, has_alpha: false, pixels: opaque })
    }

    /// An image without alpha from a run of samples: red, green and blue of the
    /// first pixel, then of the next. It is refused unless there are three samples
    /// for each place.
    pub fn from_rgb_samples(width: u32, height: u32, samples: &[u8]) -> (result: Result<
        Image,
        WatermarkError,
    >)
        ensures
            match result {
                Ok(image) => {
                    &&& samples@.len() == 3 * (width * height)
                    &&& image@ == (ImageView {
                        width: width as nat,
                        height: height as nat,
                        has_alpha: false,
                        pixels: pixels_of_rgb_samples(samples@),
                    })
                    &&& image@.wf()
                },
                Err(e) => samples@.len() != 3 * (width * height) && e
                    == WatermarkError::DimensionMismatch,
            },
    {
        if !fills(samples.len(), width, height, 3) {
            return Err(WatermarkError::DimensionMismatch);
        }
        let len: usize = samples.len();
        let count: usize = len / 3;
        let mut pixels: Vec<Rgba> = Vec::new();
        for i in 0..count
            invariant
                samples@.len() == len,
                len == 3 * count,
                pixels@.len() == i,
                forall|j: int| 0 <= j < i ==> pixels@[j] == pixels_of_rgb_samples(samples@)[j],
        {
            pixels.push(
                Rgba { r: samples[3 * i], g: samples[3 * i + 1], b: samples[3 * i + 2], a: 255 },
            );
        }
        assert(pixels@ =~= pixels_of_rgb_samples(samples@));
        Ok(Image { width, height, has_alpha: false, pixels })
    }

    /// An image with alpha from a run of samples: red, green, blue and alpha of the
    /// first pixel, then of the next. It is refused unless there are four samples
    /// for each place.
    pub fn from_rgba_samples(width: u32, height: u32, samples: &[u8]) -> (result: Result<
        Image,
        WatermarkError,
    >)
        ensures
            match result {
                Ok(image) => {
                    &&& samples@.len() == 4 * (width * height)
                    &&& image@ == (ImageView {
                        width: width as nat,
                        height: height as nat,
                        has_alpha: true,
                        pixels: pixels_of_rgba_samples(samples@),
                    })
                    &&& image@.wf()
                },
                Err(e) => samples@.len() != 4 * (width * height) && e
                    == WatermarkError::DimensionMismatch,
            },
    {
        if !fills(samples.len(), width, height, 4) {
            return Err(WatermarkError::DimensionMismatch);
        }
        let len: usize = samples.len();
        let count: usize = len / 4;
        let mut pixels: Vec<Rgba> = Vec::new();
        for i in 0..count
            invariant
                samples@.len() == len,
                len == 4 * count,
                pixels@.len() == i,
                forall|j: int| 0 <= j < i ==> pixels@[j] == pixels_of_rgba_samples(samples@)[j],
        {
            pixels.push(
                Rgba {
                    r: samples[4 * i],
                    g: samples[4 * i + 1],
                    b: samples[4 * i + 2],
                    a: samples[4 * i + 3],
                },
            );
        }
        assert(pixels@ =~= pixels_of_rgba_samples(samples@));
        Ok(Image { width, height, has_alpha: true, pixels })
    }

    /// Puts an image together from parts that are known to fit.
    pub(crate) fn assemble(width: u32, height: u32, has_alpha: bool, pixels: Vec<Rgba>) -> (image:
        Image)
        requires
            (ImageView {
                width: width as nat,
                height: height as nat,
                has_alpha,
                pixels: pixels@,
            }).wf(),
        ensures
            image@ == (ImageView {
                width: width as nat,
                height: height as nat,
                has_alpha,
                pixels: pixels@,
            }),
    {
        Image { width, height, has_alpha, pixels }
    }

    /// The number of columns.
    pub fn width(&self) -> (w: u32)
        ensures
            w == self@.width,
            self@.wf(),
    {
        proof {
            use_type_invariant(self);
        }
        self.width
    }

    /// The number of rows.
    pub fn height(&self) -> (h: u32)
        ensures
            h == self@.height,
            self@.wf(),
    {
        proof {
            use_type_invariant(self);
        }
        self.height
    }

    /// Whether the image carries alpha: four samples to the pixel, not three.
    pub fn has_alpha(&self) -> (b: bool)
        ensures
            b == self@.has_alpha,
    {
        self.has_alpha
    }

    /// The pixels in row-major order. There is one for each place.
    pub fn pixels(&self) -> (pixels: &[Rgba])
        ensures
            pixels@ == self@.pixels,
            self@.wf(),
    {
        proof {
            use_type_invariant(self);
        }
        self.pixels.as_slice()
    }

    /// The pixel in column `x` of row `y`, or nothing where the image has no such place.
    pub fn pixel(&self, x: u32, y: u32) -> (p: Option<Rgba>)
        ensures
            p == if x < self@.width && y < self@.height {
                Some(self@.pixel_at(x as int, y as int))
            } else {
                None
            },
    {
        proof {
            use_type_invariant(self);
        }
        let count: usize = self.pixels.len();
        if x < self.width && y < self.height {
            assert(y * self.width + x < self.width * self.height) by (nonlinear_arith)
                requires
                    0 <= x < self.width,
                    0 <= y < self.height,
            ;
            assert(0 <= y * self.width) by (nonlinear_arith)
                requires
                    0 <= y,
                    0 <= self.width,
            ;
            let index: usize = (y as usize) * (self.width as usize) + (x as usize);
            Some(self.pixels[index])
        } else {
            None
        }
    }

    /// The samples in one run, pixel after pixel: three to the pixel without
    /// alpha, four with it.
    pub fn to_samples(&self) -> (samples: Vec<u8>)
        ensures
            samples@ == self@.samples(),
    {
        let mut samples: Vec<u8> = Vec::new();
        if self.has_alpha {
            for i in 0..self.pixels.len()
                invariant
                    self@.has_alpha,
                    samples@.len() == 4 * i,
                    forall|k: int| 0 <= k < samples@.len() ==> samples@[k] == self@.samples()[k],
            {
                let p = self.pixels[i];
                samples.push(p.r);
                samples.push(p.g);
                samples.push(p.b);
                samples.push(p.a);
            }
        } else {
            for i in 0..self.pixels.len()
                invariant
                    !self@.has_alpha,
                    samples@.len() == 3 * i,
                    forall|k: int| 0 <= k < samples@.len() ==> samples@[k] == self@.samples()[k],
            {
                let p = self.pixels[i];
                samples.push(p.r);
                samples.push(p.g);
                samples.push(p.b);
            }
        }
        assert(samples@ =~= self@.samples());
        samples
    }
}

} // verus!
