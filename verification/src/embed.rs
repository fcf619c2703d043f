use vstd::prelude::*;
use crate::alphabet::{scalar_payload, Alphabet, MAX_PAYLOAD};
use crate::color::{lemma_extreme_luma_saturates, rgb_of, ycbcr_to_rgb, Rgba};
use crate::error::WatermarkError;
use crate::level::{
    lemma_sample_of_level_clamps, round_to_sample, sample_of_level, Strength,
    DEFAULT_STRENGTH_MICROS, UNITS_PER_LEVEL,
};
use crate::planes::{
    alpha_plane, blue_plane, chroma_blue_plane, chroma_red_plane, green_plane, luma_plane,
    red_plane, split_luma_chroma, split_raw,
};
use crate::raster::{Image, ImageView};

verus! {

/// Where the payload goes.
#[derive(Debug, Clone, Copy, PartialEq, Eq, Structural)]
pub enum Strategy {
    /// The payload is added to the first coefficient of the transformed green
    /// plane; the other planes stay as they are. The result carries alpha.
    CoefficientDomain,
    /// The payload is added to the luma of every pixel before the transform; the
    /// coefficients stay as they are. The result carries no alpha.
    SpatialBias,
}

/// What an embedding is configured with.
#[derive(Debug, Clone, Copy)]
pub struct EmbedConfig {
    pub strategy: Strategy,
    pub alphabet: Alphabet,
    pub strength: Strength,
}

impl Default for EmbedConfig {
    /// A spatial bias over the extended alphabet, at a strength of one hundredth.
    fn default() -> (config: EmbedConfig)
        ensures
            config.strategy == Strategy::SpatialBias,
            config.alphabet == Alphabet::Extended,
            config.strength.spec_micros() == DEFAULT_STRENGTH_MICROS,
    {
        EmbedConfig {
            strategy: Strategy::SpatialBias,
            alphabet: Alphabet::Extended,
            strength: Strength::default(),
        }
    }
}

/// The planes that wait while the working channel is away, as mathematics.
pub enum KeptView {
    Raw { red: Seq<u8>, blue: Seq<u8>, alpha: Seq<u8> },
    Chroma { chroma_blue: Seq<u8>, chroma_red: Seq<u8> },
}

/// An embedding in progress, as mathematics.
pub struct EmbeddingView {
    pub width: nat,
    pub height: nat,
    pub payload: int,
    pub kept: KeptView,
}

/// `v` limited to what a buffer entry holds.
pub open spec fn saturate(v: int) -> i128 {
    if v > i128::MAX {
        i128::MAX
    } else if v < i128::MIN {
        i128::MIN
    } else {
        v as i128
    }
}

/// The level that pixel `p` contributes to the working channel, in fixed-point units.
pub open spec fn working_level(p: Rgba, strategy: Strategy, payload: int) -> int {
    match strategy {
        Strategy::CoefficientDomain => p.g * UNITS_PER_LEVEL,
        Strategy::SpatialBias => crate::color::luma(p.spec_rgb()) * UNITS_PER_LEVEL + payload,
    }
}

/// The channel that is handed out for the forward transform: one level per pixel,
/// in row-major order.
pub open spec fn working_channel(pixels: Seq<Rgba>, strategy: Strategy, payload: int) -> Seq<i128> {
    Seq::new(pixels.len(), |i: int| working_level(pixels[i], strategy, payload) as i128)
}

/// The embedding that starts from `image`.
pub open spec fn begun(image: ImageView, strategy: Strategy, payload: int) -> EmbeddingView {
    EmbeddingView {
        width: image.width,
        height: image.height,
        payload,
        kept: match strategy {
            Strategy::CoefficientDomain => KeptView::Raw {
                red: red_plane(image.pixels),
                blue: blue_plane(image.pixels),
                alpha: alpha_plane(image.pixels),
            },
            Strategy::SpatialBias => KeptView::Chroma {
                chroma_blue: chroma_blue_plane(image.pixels),
                chroma_red: chroma_red_plane(image.pixels),
            },
        },
    }
}

impl EmbeddingView {
    /// The strategy that the kept planes belong to.
    pub open spec fn strategy(self) -> Strategy {
        match self.kept {
            KeptView::Raw { .. } => Strategy::CoefficientDomain,
            KeptView::Chroma { .. } => Strategy::SpatialBias,
        }
    }

    /// How many pixels the image has.
    pub open spec fn len(self) -> nat {
        self.width * self.height
    }

    /// Every kept plane has one entry per pixel, and the payload is one that a
    /// text can give.
    pub open spec fn wf(self) -> bool {
        &&& self.width <= u32::MAX
        &&& self.height <= u32::MAX
        &&& 0 <= self.payload <= MAX_PAYLOAD
        &&& match self.kept {
            KeptView::Raw { red, blue, alpha } => red.len() == self.len() && blue.len()
                == self.len() && alpha.len() == self.len(),
            KeptView::Chroma { chroma_blue, chroma_red } => chroma_blue.len() == self.len()
                && chroma_red.len() == self.len(),
        }
    }

    /// The coefficients that go on to the inverse transform. In the coefficient
    /// domain the payload is added to the first of them and to no other; a sum
    /// beyond what an entry holds stays at the largest entry. A spatial bias
    /// leaves the coefficients as they are.
    pub open spec fn injected(self, coefficients: Seq<i128>) -> Seq<i128> {
        match self.kept {
            KeptView::Raw { .. } => if coefficients.len() == 0 {
                coefficients
            } else {
                coefficients.update(0, saturate(coefficients[0] + self.payload))
            },
            KeptView::Chroma { .. } => coefficients,
        }
    }

    /// Pixel `i` of the result, for the level that came back for it. In the
    /// coefficient domain the level becomes the green sample, rounded and clamped,
    /// beside the kept red, blue and alpha. With a spatial bias the level is the
    /// luma from which, with the kept chroma, an opaque pixel is converted.
    pub open spec fn rebuilt_pixel(self, i: int, level: int) -> Rgba {
        match self.kept {
            KeptView::Raw { red, blue, alpha } => Rgba {
                r: red[i],
                g: sample_of_level(level) as u8,
                b: blue[i],
                a: alpha[i],
            },
            KeptView::Chroma { chroma_blue, chroma_red } => rgb_of(
                level,
                chroma_blue[i] as int,
                chroma_red[i] as int,
            ).spec_opaque(),
        }
    }

    /// The image that is put together from the samples that came back from the
    /// inverse transform.
    pub open spec fn rebuilt(self, samples: Seq<i128>) -> ImageView {
        ImageView {
            width: self.width,
            height: self.height,
            has_alpha: self.kept is Raw,
            pixels: Seq::new(self.len(), |i: int| self.rebuilt_pixel(i, samples[i] as int)),
        }
    }
}

enum Kept {
    Raw { red: Vec<u8>, blue: Vec<u8>, alpha: Vec<u8> },
    Chroma { chroma_blue: Vec<u8>, chroma_red: Vec<u8> },
}

struct Embedding {
    width: u32,
    height: u32,
    payload: i128,
    kept: Kept,
}

impl Embedding {
    closed spec fn view(&self) -> EmbeddingView {
        EmbeddingView {
            width: self.width as nat,
            height: self.height as nat,
            payload: self.payload as int,
            kept: match self.kept {
                Kept::Raw { red, blue, alpha } => KeptView::Raw {
                    red: red@,
                    blue: blue@,
                    alpha: alpha@,
                },
                Kept::Chroma { chroma_blue, chroma_red } => KeptView::Chroma {
                    chroma_blue: chroma_blue@,
                    chroma_red: chroma_red@,
                },
            },
        }
    }

    #[verifier::type_invariant]
    spec fn inv(self) -> bool {
        self.view().wf()
    }
}

/// An embedding whose working channel is away for the forward transform.
pub struct PendingForward {
    embedding: Embedding,
}

/// An embedding whose working channel is away for the inverse transform.
pub struct PendingInverse {
    embedding: Embedding,
}

impl View for PendingForward {
    type V = EmbeddingView;

    closed spec fn view(&self) -> EmbeddingView {
        self.embedding.view()
    }
}

impl View for PendingInverse {
    type V = EmbeddingView;

    closed spec fn view(&self) -> EmbeddingView {
        self.embedding.view()
    }
}

/// The levels of a plane, each raised by `bias`.
fn levels_of(plane: &Vec<u8>, bias: i128) -> (levels: Vec<i128>)
    requires
        0 <= bias <= MAX_PAYLOAD,
    ensures
        levels@.len() == plane@.len(),
        forall|i: int|
            0 <= i < plane@.len() ==> (#[trigger] levels@[i]) == plane@[i] * UNITS_PER_LEVEL + bias,
{
    let mut levels: Vec<i128> = Vec::new();
    for i in 0..plane.len()
        invariant
            0 <= bias <= MAX_PAYLOAD,
            levels@.len() == i,
            forall|j: int|
                0 <= j < i ==> (#[trigger] levels@[j]) == plane@[j] * UNITS_PER_LEVEL + bias,
    {
        levels.push((plane[i] as i128) * UNITS_PER_LEVEL + bias);
    }
    levels
}

/// Starts to embed `watermark` into `image`.
///
/// The text is encoded first: where it holds a character that the alphabet lacks,
/// the call fails with that character and nothing else is done. Otherwise the
/// image is split into planes, and the working channel is handed out with the
/// embedding that waits for its forward transform.
pub fn embed_watermark_color(image: &Image, watermark: &str, config: &EmbedConfig) -> (result:
    Result<(PendingForward, Vec<i128>), WatermarkError>)
    ensures
        match result {
            Ok((pending, channel)) => {
                let payload = config.alphabet.payload(watermark@, config.strength.spec_micros());
                &&& config.alphabet.first_rejected(watermark@) is None
                &&& pending@ == begun(image@, config.strategy, payload)
                &&& pending@.wf()
                &&& channel@ == working_channel(image@.pixels, config.strategy, payload)
            },
            Err(e) => config.alphabet.first_rejected(watermark@) matches Some(c) && e
                == WatermarkError::InvalidCharacter(c),
        },
{
    let payload = match scalar_payload(watermark, config.alphabet, config.strength) {
        Ok(payload) => payload,
        Err(e) => {
            return Err(e);
        },
    };
    let width = image.width();
    let height = image.height();
    match config.strategy {
        Strategy::CoefficientDomain => {
            let planes = split_raw(image);
            let channel = levels_of(&planes.green, 0);
            assert(channel@ =~= working_channel(image@.pixels, config.strategy, payload as int));
            let kept = Kept::Raw { red: planes.red, blue: planes.blue, alpha: planes.alpha };
            let embedding = Embedding { width, height, payload, kept };
            Ok((PendingForward { embedding }, channel))
        },
        Strategy::SpatialBias => {
            let planes = split_luma_chroma(image);
            let channel = levels_of(&planes.luma, payload);
            assert(channel@ =~= working_channel(image@.pixels, config.strategy, payload as int));
            let kept = Kept::Chroma {
                chroma_blue: planes.chroma_blue,
                chroma_red: planes.chroma_red,
            };
            let embedding = Embedding { width, height, payload, kept };
            Ok((PendingForward { embedding }, channel))
        },
    }
}

impl PendingForward {
    /// Takes the coefficients that the forward transform gave and hands out the
    /// buffer for the inverse transform, with the embedding that waits for it.
    /// Coefficients that are not one per pixel are refused.
    pub fn inject(self, coefficients: Vec<i128>) -> (result: Result<
        (PendingInverse, Vec<i128>),
        WatermarkError,
    >)
        ensures
            match result {
                Ok((pending, buffer)) => {
                    &&& coefficients@.len() == self@.len()
                    &&& pending@ == self@
                    &&& pending@.wf()
                    &&& buffer@ == self@.injected(coefficients@)
                },
                Err(e) => coefficients@.len() != self@.len() && e
                    == WatermarkError::DimensionMismatch,
            },
    {
        proof {
            use_type_invariant(&self.embedding);
        }
        let embedding = self.embedding;
        if !embedding.holds(coefficients.len()) {
            return Err(WatermarkError::DimensionMismatch);
        }
        let mut buffer = coefficients;
        match embedding.kept {
            Kept::Raw { .. } => {
                if buffer.len() > 0 {
                    let raised = match buffer[0].checked_add(embedding.payload) {
                        Some(sum) => sum,
                        None => i128::MAX,
                    };
                    buffer.set(0, raised);
                }
            },
            Kept::Chroma { .. } => {},
        }
        Ok((PendingInverse { embedding }, buffer))
    }
}

impl Embedding {
    /// Whether `len` is the number of pixels.
    fn holds(&self, len: usize) -> (b: bool)
        ensures
            b == (len == self.view().len()),
    {
        assert(0 <= self.width * self.height <= 0xffff_ffff * 0xffff_ffff) by (nonlinear_arith)
            requires
                0 <= self.width <= 0xffff_ffff,
                0 <= self.height <= 0xffff_ffff,
        ;
        len as u64 == (self.width as u64) * (self.height as u64)
    }
}

impl PendingInverse {
    /// Takes the samples that the inverse transform gave and puts the image
    /// together, each sample rounded to the nearest integer and clamped to
    /// `0..=255`. Samples that are not one per pixel are refused.
    pub fn reconstruct(self, samples: &[i128]) -> (result: Result<Image, WatermarkError>)
        ensures
            match result {
                Ok(image) => {
                    &&& samples@.len() == self@.len()
                    &&& image@ == self@.rebuilt(samples@)
                    &&& image@.wf()
                },
                Err(e) => samples@.len() != self@.len() && e == WatermarkError::DimensionMismatch,
            },
    {
        proof {
            use_type_invariant(&self.embedding);
        }
        let embedding = self.embedding;
        if !embedding.holds(samples.len()) {
            return Err(WatermarkError::DimensionMismatch);
        }
        let ghost view = embedding.view();
        let mut pixels: Vec<Rgba> = Vec::new();
        match &embedding.kept {
            Kept::Raw { red, blue, alpha } => {
                for i in 0..samples.len()
                    invariant
                        view.wf(),
                        view.kept == (KeptView::Raw { red: red@, blue: blue@, alpha: alpha@ }),
                        samples@.len() == view.len(),
                        pixels@.len() == i,
                        forall|j: int|
                            0 <= j < i ==> (#[trigger] pixels@[j]) == view.rebuilt_pixel(
                                j,
                                samples@[j] as int,
                            ),
                {
                    pixels.push(
                        Rgba {
                            r: red[i],
                            g: round_to_sample(samples[i]),
                            b: blue[i],
                            a: alpha[i],
                        },
                    );
                }
            },
            Kept::Chroma { chroma_blue, chroma_red } => {
                for i in 0..samples.len()
                    invariant
                        view.wf(),
                        view.kept == (KeptView::Chroma {
                            chroma_blue: chroma_blue@,
                            chroma_red: chroma_red@,
                        }),
                        samples@.len() == view.len(),
                        pixels@.len() == i,
                        forall|j: int|
                            0 <= j < i ==> (#[trigger] pixels@[j]) == view.rebuilt_pixel(
                                j,
                                samples@[j] as int,
                            ),
                {
                    pixels.push(ycbcr_to_rgb(samples[i], chroma_blue[i], chroma_red[i]).opaque());
                }
            },
        }
        assert(pixels@ =~= view.rebuilt(samples@).pixels);
        let has_alpha = match &embedding.kept {
            Kept::Raw { .. } => true,
            Kept::Chroma { .. } => false,
        };
        Ok(Image::assemble(embedding.width, embedding.height, has_alpha, pixels))
    }
}

/// What becomes of one pixel: with the samples that came back, pixel `i` of the
/// result is a function of pixel `i` of the source and of sample `i` alone.
pub proof fn lemma_embedded_pixel(
    image: ImageView,
    strategy: Strategy,
    payload: int,
    samples: Seq<i128>,
    i: int,
)
    requires
        image.wf(),
        samples.len() == image.pixels.len(),
        0 <= i < image.pixels.len(),
    ensures
        begun(image, strategy, payload).rebuilt(samples).pixels[i] == match strategy {
            Strategy::CoefficientDomain => Rgba {
                r: image.pixels[i].r,
                g: sample_of_level(samples[i] as int) as u8,
                b: image.pixels[i].b,
                a: image.pixels[i].a,
            },
            Strategy::SpatialBias => rgb_of(
                samples[i] as int,
                crate::color::chroma_blue(image.pixels[i].spec_rgb()),
                crate::color::chroma_red(image.pixels[i].spec_rgb()),
            ).spec_opaque(),
        },
{
    crate::level::lemma_round_half_away_is_nearest(
        -169 * image.pixels[i].r - 331 * image.pixels[i].g + 500 * image.pixels[i].b + 128_000,
        1000,
    );
    crate::level::lemma_round_half_away_is_nearest(
        500 * image.pixels[i].r - 419 * image.pixels[i].g - 81 * image.pixels[i].b + 128_000,
        1000,
    );
}

/// A sample that leaves the range is clamped, never wrapped: in the coefficient
/// domain a level of 255 or more gives a green of 255 and a level of 0 or less a
/// green of 0; with a spatial bias a luma far enough above the range gives
/// white and one far enough below it gives black.
pub proof fn lemma_out_of_range_is_clamped(embedding: EmbeddingView, i: int, level: int)
    ensures
        embedding.strategy() == Strategy::CoefficientDomain && level >= 255 * UNITS_PER_LEVEL
            ==> embedding.rebuilt_pixel(i, level).g == 255,
        embedding.strategy() == Strategy::CoefficientDomain && level <= 0
            ==> embedding.rebuilt_pixel(i, level).g == 0,
        embedding.strategy() == Strategy::SpatialBias && level >= 482 * UNITS_PER_LEVEL
            ==> embedding.rebuilt_pixel(i, level) == (Rgba { r: 255, g: 255, b: 255, a: 255 }),
        embedding.strategy() == Strategy::SpatialBias && level <= -226 * UNITS_PER_LEVEL
            ==> embedding.rebuilt_pixel(i, level) == (Rgba { r: 0, g: 0, b: 0, a: 255 }),
{
    lemma_sample_of_level_clamps(level);
    match embedding.kept {
        KeptView::Raw { .. } => {},
        KeptView::Chroma { chroma_blue, chroma_red } => {
            lemma_extreme_luma_saturates(level, chroma_blue[i], chroma_red[i]);
        },
    }
}

/// Embedding is a function of what it is given: two runs on images with the same
/// dimensions and pixels, with the same strategy and payload, that get the same
/// buffers back from the transforms, hand out the same buffers and end in the
/// same image.
pub proof fn lemma_embedding_is_deterministic(
    first: ImageView,
    second: ImageView,
    strategy: Strategy,
    payload: int,
    coefficients: Seq<i128>,
    samples: Seq<i128>,
)
    requires
        first.width == second.width,
        first.height == second.height,
        first.pixels =~= second.pixels,
    ensures
        working_channel(first.pixels, strategy, payload) == working_channel(
            second.pixels,
            strategy,
            payload,
        ),
        begun(first, strategy, payload).injected(coefficients) == begun(
            second,
            strategy,
            payload,
        ).injected(coefficients),
        begun(first, strategy, payload).rebuilt(samples) == begun(
            second,
            strategy,
            payload,
        ).rebuilt(samples),
{
}

} // verus!
