//! Embeds a textual watermark into a raster image.
//!
//! The text is encoded over a fixed alphabet into a scalar payload, the image is
//! split into planes, one channel is handed out for a frequency transform, and
//! the image is put together again from what comes back. Every quantity that is a
//! real number in the mathematics (a strength, a payload, a transformed sample)
//! is held in fixed point, in millionths of a sample level, so that the
//! arithmetic is exact.
//!
//! The frequency transform works in floating point and is not part of this
//! crate. An embedding therefore runs in three steps, and the caller transforms
//! the buffer between them: [`embed_watermark_color`] hands out the working
//! channel, [`PendingForward::inject`] takes its coefficients and hands out the
//! buffer for the inverse transform, and [`PendingInverse::reconstruct`] takes
//! the samples and gives the image.

pub mod alphabet;
pub mod color;
pub mod embed;
pub mod error;
pub mod level;
pub mod planes;
pub mod raster;

pub use alphabet::{
    encode_symbols, get_watermark_from_str, scalar_payload, symbol_index, Alphabet, MAX_PAYLOAD,
};
pub use color::{rgb_to_ycbcr, ycbcr_to_rgb, Rgb, Rgba};
pub use embed::{embed_watermark_color, EmbedConfig, PendingForward, PendingInverse, Strategy};
pub use error::WatermarkError;
pub use level::{
    level_of_sample, round_to_sample, sample_of_thousandths, Strength, DEFAULT_STRENGTH_MICROS,
    MAX_STRENGTH_MICROS, UNITS_PER_LEVEL,
};
pub use planes::{split_luma_chroma, split_raw, LumaChromaPlanes, RawPlanes};
pub use raster::Image;
