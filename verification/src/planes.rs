use vstd::prelude::*;
use crate::color::{chroma_blue, chroma_red, luma, rgb_to_ycbcr, Rgba};
use crate::raster::Image;

verus! {

/// The red samples of `pixels`, one per pixel.
pub open spec fn red_plane(pixels: Seq<Rgba>) -> Seq<u8> {
    Seq::new(pixels.len(), |i: int| pixels[i].r)
}

/// The green samples of `pixels`, one per pixel.
pub open spec fn green_plane(pixels: Seq<Rgba>) -> Seq<u8> {
    Seq::new(pixels.len(), |i: int| pixels[i].g)
}

/// The blue samples of `pixels`, one per pixel.
pub open spec fn blue_plane(pixels: Seq<Rgba>) -> Seq<u8> {
    Seq::new(pixels.len(), |i: int| pixels[i].b)
}

/// The alpha samples of `pixels`, one per pixel.
pub open spec fn alpha_plane(pixels: Seq<Rgba>) -> Seq<u8> {
    Seq::new(pixels.len(), |i: int| pixels[i].a)
}

/// The luma of each pixel.
pub open spec fn luma_plane(pixels: Seq<Rgba>) -> Seq<u8> {
    Seq::new(pixels.len(), |i: int| luma(pixels[i].spec_rgb()) as u8)
}

/// The blue-difference chroma of each pixel.
pub open spec fn chroma_blue_plane(pixels: Seq<Rgba>) -> Seq<u8> {
    Seq::new(pixels.len(), |i: int| chroma_blue(pixels[i].spec_rgb()) as u8)
}

/// The red-difference chroma of each pixel.
pub open spec fn chroma_red_plane(pixels: Seq<Rgba>) -> Seq<u8> {
    Seq::new(pixels.len(), |i: int| chroma_red(pixels[i].spec_rgb()) as u8)
}

/// The raw planes of an image: its samples sorted by channel, with no change of
/// colour space. Each plane is in row-major order.
#[derive(Debug)]
pub struct RawPlanes {
    pub red: Vec<u8>,
    pub green: Vec<u8>,
    pub blue: Vec<u8>,
    pub alpha: Vec<u8>,
}

/// The luma and chroma planes of an image, each in row-major order.
#[derive(Debug)]
pub struct LumaChromaPlanes {
    pub luma: Vec<u8>,
    pub chroma_blue: Vec<u8>,
    pub chroma_red: Vec<u8>,
}

/// Separates the red, green, blue and alpha samples of an image into four planes.
/// An image without alpha gives an alpha plane of 255 throughout.
pub fn split_raw(image: &Image) -> (planes: RawPlanes)
    ensures
        planes.red@ == red_plane(image@.pixels),
        planes.green@ == green_plane(image@.pixels),
        planes.blue@ == blue_plane(image@.pixels),
        planes.alpha@ == alpha_plane(image@.pixels),
{
    let pixels = image.pixels();
    let mut red: Vec<u8> = Vec::new();
    let mut green: Vec<u8> = Vec::new();
    let mut blue: Vec<u8> = Vec::new();
    let mut alpha: Vec<u8> = Vec::new();
    for i in 0..pixels.len()
        invariant
            red@ == red_plane(pixels@.take(i as int)),
            green@ == green_plane(pixels@.take(i as int)),
            blue@ == blue_plane(pixels@.take(i as int)),
            alpha@ == alpha_plane(pixels@.take(i as int)),
    {
        let p = pixels[i];
        red.push(p.r);
        green.push(p.g);
        blue.push(p.b);
        alpha.push(p.a);
        proof {
            let next = pixels@.take(i + 1);
            assert(red@ =~= red_plane(next));
            assert(green@ =~= green_plane(next));
            assert(blue@ =~= blue_plane(next));
            assert(alpha@ =~= alpha_plane(next));
        }
    }
    proof {
        assert(pixels@.take(pixels@.len() as int) =~= pixels@);
    }
    RawPlanes { red, green, blue, alpha }
}

/// Converts every pixel of an image to luma and chroma and gives the three planes.
pub fn split_luma_chroma(image: &Image) -> (planes: LumaChromaPlanes)
    ensures
        planes.luma@ == luma_plane(image@.pixels),
        planes.chroma_blue@ == chroma_blue_plane(image@.pixels),
        planes.chroma_red@ == chroma_red_plane(image@.pixels),
{
    let pixels = image.pixels();
    let mut y_plane: Vec<u8> = Vec::new();
    let mut cb_plane: Vec<u8> = Vec::new();
    let mut cr_plane: Vec<u8> = Vec::new();
    for i in 0..pixels.len()
        invariant
            y_plane@ == luma_plane(pixels@.take(i as int)),
            cb_plane@ == chroma_blue_plane(pixels@.take(i as int)),
            cr_plane@ == chroma_red_plane(pixels@.take(i as int)),
    {
        let (y, cb, cr) = rgb_to_ycbcr(&pixels[i].rgb());
        y_plane.push(y);
        cb_plane.push(cb);
        cr_plane.push(cr);
        proof {
            let next = pixels@.take(i + 1);
            assert(y_plane@ =~= luma_plane(next));
            assert(cb_plane@ =~= chroma_blue_plane(next));
            assert(cr_plane@ =~= chroma_red_plane(next));
        }
    }
    proof {
        assert(pixels@.take(pixels@.len() as int) =~= pixels@);
    }
    LumaChromaPlanes { luma: y_plane, chroma_blue: cb_plane, chroma_red: cr_plane }
}

} // verus!
