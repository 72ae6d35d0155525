//! Archive write path: turning a true-color image into indexed color.
//! A four-level mip chain is produced by Gaussian resampling, one shared
//! 256-color palette is computed over the combined pixel population of all
//! four images, and each image is remapped to one palette-index byte per
//! pixel. Resampling and palette selection are done by outside crates
//! behind trusted wrappers; everything around them is verified.

use vstd::prelude::*;

use crate::hlwad::{spec_mip_divisor, Color};
use crate::le::{lemma_vec_len_fits, push_bytes};
use rgb::FromSlice;

verus! {

/// A true-color image: `3 * width * height` RGB bytes, row-major.
#[derive(Debug, Clone, PartialEq)]
pub struct RgbImage {
    pub width: u32,
    pub height: u32,
    pub pixels: Vec<u8>,
}

impl RgbImage {
    pub open spec fn wf(&self) -> bool {
        self.pixels@.len() == 3 * self.width * self.height
    }
}

pub open spec fn spec_pixels(m: RgbImage) -> int {
    m.width * m.height
}

/// What `image::imageops::resize` with a Gaussian filter returns for the
/// given source pixels and target dimensions; a pure function of them.
pub uninterp spec fn resampled(pixels: Seq<u8>, w: int, h: int, nw: int, nh: int) -> Seq<u8>;

/// Relies on image::imageops::resize with FilterType::Gaussian, a pure,
/// total function of the source pixels and the target dimensions that
/// returns an `nw` by `nh` image; and on RgbImage::from_vec, whose source
/// accepts every buffer of exactly `3 * w * h` bytes.
#[verifier::external_body]
fn resample_rgb(pixels: &Vec<u8>, w: u32, h: u32, nw: u32, nh: u32) -> (r: Vec<u8>)
    requires
        pixels@.len() == 3 * w * h,
        w >= 1,
        h >= 1,
        nw >= 1,
        nh >= 1,
    ensures
        r@ == resampled(pixels@, w as int, h as int, nw as int, nh as int),
        r@.len() == 3 * nw * nh,
{
    let img = image::RgbImage::from_vec(w, h, pixels.clone()).expect(
        "a buffer of exactly 3 * w * h bytes always constructs",
    );
    image::imageops::resize(&img, nw, nh, image::imageops::FilterType::Gaussian).into_vec()
}

/// Shared-palette accumulation state of imagequant: the global attributes,
/// the color histogram, and the images pending remap.
#[verifier::external_body]
pub struct PaletteBuilder {
    attr: imagequant::Attributes,
    hist: imagequant::Histogram,
    images: Vec<imagequant::Image<'static>>,
}

/// Pixel counts of the images added to the builder, in order.
pub uninterp spec fn builder_sizes(b: PaletteBuilder) -> Seq<int>;

/// Relies on imagequant::new and Histogram::new: a fresh histogram holds
/// no image.
#[verifier::external_body]
fn palette_builder_new() -> (r: PaletteBuilder)
    ensures
        builder_sizes(r) == Seq::<int>::empty(),
{
    let attr = imagequant::new();
    let hist = imagequant::Histogram::new(&attr);
    PaletteBuilder { attr, hist, images: Vec::new() }
}

/// Relies on Attributes::new_image and Histogram::add_image: the `w` by
/// `h` RGBA image joins the shared histogram and is kept for remapping;
/// on failure the builder's image list is unchanged.
#[verifier::external_body]
fn palette_builder_add(b: &mut PaletteBuilder, rgba: Vec<u8>, w: u32, h: u32) -> (ok: bool)
    requires
        rgba@.len() == 4 * w * h,
        w >= 1,
        h >= 1,
    ensures
        ok ==> builder_sizes(*final(b)) == builder_sizes(*old(b)).push(w as int * h as int),
        !ok ==> builder_sizes(*final(b)) == builder_sizes(*old(b)),
{
    let px: Vec<imagequant::RGBA> = rgba.as_rgba().to_vec();
    // Zero gamma selects the crate's sRGB default.
    let mut img = match b.attr.new_image(px, w as usize, h as usize, Default::default()) {
        Ok(i) => i,
        Err(_) => {
            return false;
        },
    };
    match b.hist.add_image(&b.attr, &mut img) {
        Ok(()) => {
            b.images.push(img);
            true
        },
        Err(_) => false,
    }
}

/// A computed shared palette and the images awaiting remap against it.
#[verifier::external_body]
pub struct QuantOutcome {
    result: imagequant::QuantizationResult,
    images: Vec<imagequant::Image<'static>>,
}

/// Pixel counts of the images awaiting remap, in order.
pub uninterp spec fn outcome_sizes(o: QuantOutcome) -> Seq<int>;

/// Relies on Histogram::quantize: selects one palette for everything the
/// histogram saw; the pending images carry over unchanged.
#[verifier::external_body]
fn palette_builder_quantize(b: PaletteBuilder) -> (r: Option<QuantOutcome>)
    ensures
        r matches Some(o) ==> outcome_sizes(o) == builder_sizes(b),
{
    let PaletteBuilder { attr, mut hist, images } = b;
    match hist.quantize(&attr) {
        Ok(result) => Some(QuantOutcome { result, images }),
        Err(_) => None,
    }
}

/// Relies on QuantizationResult::palette_vec: the palette holds at most
/// 256 colors; the three color channels of each are kept.
#[verifier::external_body]
fn outcome_palette(o: &mut QuantOutcome) -> (r: Vec<u8>)
    ensures
        outcome_sizes(*final(o)) == outcome_sizes(*old(o)),
        r@.len() % 3 == 0,
        r@.len() <= 768,
{
    let pal = o.result.palette_vec();
    pal.iter().flat_map(|c| [c.r, c.g, c.b]).collect()
}

/// Relies on QuantizationResult::remapped: on success the buffer holds one
/// palette-index byte per pixel of image `i`, in row-major order.
#[verifier::external_body]
fn outcome_remap(o: &mut QuantOutcome, i: usize) -> (r: Option<Vec<u8>>)
    requires
        i < outcome_sizes(*old(o)).len(),
    ensures
        outcome_sizes(*final(o)) == outcome_sizes(*old(o)),
        r matches Some(v) ==> v@.len() == outcome_sizes(*old(o))[i as int],
{
    let img = match o.images.get_mut(i) {
        Some(im) => im,
        None => {
            return None;
        },
    };
    match o.result.remapped(img) {
        Ok((_, idx)) => Some(idx),
        Err(_) => None,
    }
}

/// Widen RGB bytes to RGBA bytes with opaque alpha.
pub fn rgb_to_rgba(rgb: &Vec<u8>) -> (r: Vec<u8>)
    requires
        rgb@.len() % 3 == 0,
        4 * (rgb@.len() / 3) <= usize::MAX,
    ensures
        r@.len() == 4 * (rgb@.len() / 3),
        forall|i: int|
            0 <= i < r@.len() ==> #[trigger] r@[i] == (if i % 4 == 3 {
                255u8
            } else {
                rgb@[3 * (i / 4) + i % 4]
            }),
{
    proof {
        lemma_vec_len_fits(rgb);
    }
    let n = rgb.len() / 3;
    let mut r: Vec<u8> = Vec::new();
    let mut p: usize = 0;
    while p < n
        invariant
            0 <= p <= n,
            n == rgb@.len() / 3,
            rgb@.len() % 3 == 0,
            3 * n == rgb@.len(),
            4 * n <= usize::MAX,
            r@.len() == 4 * p,
            forall|i: int|
                0 <= i < 4 * p ==> #[trigger] r@[i] == (if i % 4 == 3 {
                    255u8
                } else {
                    rgb@[3 * (i / 4) + i % 4]
                }),
        decreases n - p,
    {
        r.push(rgb[3 * p]);
        r.push(rgb[3 * p + 1]);
        r.push(rgb[3 * p + 2]);
        r.push(255);
        proof {
            lemma_muladd_div(p as int, 4, 0);
            lemma_muladd_div(p as int, 4, 1);
            lemma_muladd_div(p as int, 4, 2);
            lemma_muladd_div(p as int, 4, 3);
        }
        p = p + 1;
    }
    r
}

/// Quotient and remainder of an explicit decomposition `d*k + m`.
proof fn lemma_muladd_div(k: int, d: int, m: int)
    requires
        0 <= m < d,
        0 <= k,
    ensures
        (d * k + m) / d == k,
        (d * k + m) % d == m,
{
    vstd::arithmetic::mul::lemma_mul_is_commutative(d, k);
    vstd::arithmetic::div_mod::lemma_fundamental_div_mod_converse(d * k + m, d, k, m);
}

/// The four mip images of `img`: level 0 is the image itself, levels 1 to 3
/// are Gaussian downsamples of it at 1/2, 1/4 and 1/8 of its size.
pub fn gen_mipmaps(img: &RgbImage) -> (v: Vec<RgbImage>)
    requires
        img.wf(),
        img.width % 8 == 0,
        img.height % 8 == 0,
        img.width >= 8,
        img.height >= 8,
    ensures
        v@.len() == 4,
        forall|l: int|
            0 <= l < 4 ==> (#[trigger] v@[l]).wf() && v@[l].width == img.width as int
                / spec_mip_divisor(l) && v@[l].height == img.height as int / spec_mip_divisor(l),
        v@[0].pixels@ == img.pixels@,
        forall|l: int|
            1 <= l < 4 ==> (#[trigger] v@[l]).pixels@ == resampled(
                img.pixels@,
                img.width as int,
                img.height as int,
                img.width as int / spec_mip_divisor(l),
                img.height as int / spec_mip_divisor(l),
            ),
{
    proof {
        lemma_vec_len_fits(&img.pixels);
    }
    let level0 = RgbImage {
        width: img.width,
        height: img.height,
        pixels: crate::le::read_bytes(&img.pixels, 0, img.pixels.len()),
    };
    let p1 = resample_rgb(&img.pixels, img.width, img.height, img.width / 2, img.height / 2);
    let p2 = resample_rgb(&img.pixels, img.width, img.height, img.width / 4, img.height / 4);
    let p3 = resample_rgb(&img.pixels, img.width, img.height, img.width / 8, img.height / 8);
    let level1 = RgbImage { width: img.width / 2, height: img.height / 2, pixels: p1 };
    let level2 = RgbImage { width: img.width / 4, height: img.height / 4, pixels: p2 };
    let level3 = RgbImage { width: img.width / 8, height: img.height / 8, pixels: p3 };
    let mut v: Vec<RgbImage> = Vec::new();
    v.push(level0);
    v.push(level1);
    v.push(level2);
    v.push(level3);
    v
}

/// Pixel counts of the four mip levels together.
pub open spec fn spec_total_pixels(mips: Seq<RgbImage>) -> int
    recommends
        mips.len() == 4,
{
    spec_pixels(mips[0]) + spec_pixels(mips[1]) + spec_pixels(mips[2]) + spec_pixels(mips[3])
}

/// Remainder facts for an exact multiple of 3.
proof fn lemma_mul3_div(x: int)
    requires
        0 <= x,
    ensures
        (3 * x) % 3 == 0,
        (3 * x) / 3 == x,
{
    vstd::arithmetic::div_mod::lemma_fundamental_div_mod_converse(3 * x, 3, x, 0);
}

/// Quantize the four mip images against one shared palette. On success:
/// a full 256-entry palette (unused entries zeroed) and the concatenated
/// index buffers of the four levels, one byte per pixel, in level order.
pub fn quantize_mips(mips: &Vec<RgbImage>) -> (r: Option<(Vec<Color>, Vec<u8>)>)
    requires
        mips@.len() == 4,
        forall|l: int|
            0 <= l < 4 ==> (#[trigger] mips@[l]).wf() && mips@[l].width >= 1 && mips@[l].height
                >= 1,
        forall|l: int| 0 <= l < 4 ==> 4 * spec_pixels(#[trigger] mips@[l]) <= usize::MAX,
        spec_total_pixels(mips@) <= usize::MAX,
    ensures
        r matches Some(pi) ==> pi.0@.len() == 256 && pi.1@.len() == spec_total_pixels(mips@),
{
    let mut b = palette_builder_new();
    let mut l: usize = 0;
    while l < 4
        invariant
            0 <= l <= 4,
            mips@.len() == 4,
            forall|k: int|
                0 <= k < 4 ==> (#[trigger] mips@[k]).wf() && mips@[k].width >= 1 && mips@[k].height
                    >= 1,
            forall|k: int| 0 <= k < 4 ==> 4 * spec_pixels(#[trigger] mips@[k]) <= usize::MAX,
            builder_sizes(b).len() == l,
            forall|k: int|
                0 <= k < l ==> builder_sizes(b)[k] == spec_pixels(#[trigger] mips@[k]),
        decreases 4 - l,
    {
        let m = &mips[l];
        proof {
            lemma_vec_len_fits(&m.pixels);
            assert(m.pixels@.len() == 3 * (m.width * m.height)) by (nonlinear_arith)
                requires
                    m.pixels@.len() == 3 * m.width * m.height,
            ;
            lemma_mul3_div(m.width * m.height);
        }
        let rgba = rgb_to_rgba(&m.pixels);
        proof {
            assert(rgba@.len() == 4 * (m.width * m.height));
            assert(4 * (m.width * m.height) == 4 * m.width * m.height) by (nonlinear_arith);
        }
        if !palette_builder_add(&mut b, rgba, m.width, m.height) {
            return None;
        }
        l = l + 1;
    }
    let mut o = match palette_builder_quantize(b) {
        Some(o) => o,
        None => {
            return None;
        },
    };
    let mut data: Vec<u8> = Vec::new();
    let mut l: usize = 0;
    while l < 4
        invariant
            0 <= l <= 4,
            mips@.len() == 4,
            outcome_sizes(o).len() == 4,
            forall|k2: int|
                0 <= k2 < 4 ==> outcome_sizes(o)[k2] == spec_pixels(#[trigger] mips@[k2]),
            spec_total_pixels(mips@) <= usize::MAX,
            forall|k2: int| 0 <= k2 < 4 ==> spec_pixels(#[trigger] mips@[k2]) >= 0,
            data@.len() == spec_partial_pixels(mips@, l as int),
        decreases 4 - l,
    {
        let idx = match outcome_remap(&mut o, l) {
            Some(v) => v,
            None => {
                return None;
            },
        };
        push_bytes(&mut data, &idx);
        l = l + 1;
    }
    // Remapping refines the palette, so it is read only after every level
    // has been remapped against it.
    let pal_bytes = outcome_palette(&mut o);
    let palette = palette_from_bytes(&pal_bytes);
    proof {
        assert(spec_partial_pixels(mips@, 4) == spec_partial_pixels(mips@, 3) + spec_pixels(
            mips@[3],
        ));
        assert(spec_partial_pixels(mips@, 3) == spec_partial_pixels(mips@, 2) + spec_pixels(
            mips@[2],
        ));
        assert(spec_partial_pixels(mips@, 2) == spec_partial_pixels(mips@, 1) + spec_pixels(
            mips@[1],
        ));
        assert(spec_partial_pixels(mips@, 0) == 0);
        assert(spec_partial_pixels(mips@, 1) == spec_pixels(mips@[0]));
    }
    Some((palette, data))
}

/// Expand quantizer palette bytes to the format's full 256 entries: one
/// color per 3-byte triple in order, every remaining entry zeroed.
pub fn palette_from_bytes(pal_bytes: &Vec<u8>) -> (p: Vec<Color>)
    requires
        pal_bytes@.len() % 3 == 0,
        pal_bytes@.len() <= 768,
    ensures
        p@.len() == 256,
        forall|k: int|
            0 <= k < pal_bytes@.len() / 3 ==> p@[k] == (Color {
                r: pal_bytes@[3 * k],
                g: pal_bytes@[3 * k + 1],
                b: pal_bytes@[3 * k + 2],
            }),
        forall|k: int|
            pal_bytes@.len() / 3 <= k < 256 ==> p@[k] == (Color { r: 0, g: 0, b: 0 }),
{
    proof {
        vstd::arithmetic::div_mod::lemma_fundamental_div_mod(pal_bytes@.len() as int, 3);
    }
    let n = pal_bytes.len() / 3;
    let mut p: Vec<Color> = Vec::new();
    let mut k: usize = 0;
    while k < n
        invariant
            k <= n,
            n == pal_bytes@.len() / 3,
            3 * n == pal_bytes@.len(),
            n <= 256,
            p@.len() == k,
            forall|j: int|
                0 <= j < k ==> p@[j] == (Color {
                    r: pal_bytes@[3 * j],
                    g: pal_bytes@[3 * j + 1],
                    b: pal_bytes@[3 * j + 2],
                }),
        decreases n - k,
    {
        p.push(
            Color { r: pal_bytes[3 * k], g: pal_bytes[3 * k + 1], b: pal_bytes[3 * k + 2] },
        );
        k = k + 1;
    }
    while k < 256
        invariant
            n <= k <= 256,
            n == pal_bytes@.len() / 3,
            p@.len() == k,
            forall|j: int|
                0 <= j < n ==> p@[j] == (Color {
                    r: pal_bytes@[3 * j],
                    g: pal_bytes@[3 * j + 1],
                    b: pal_bytes@[3 * j + 2],
                }),
            forall|j: int| n <= j < k ==> p@[j] == (Color { r: 0, g: 0, b: 0 }),
        decreases 256 - k,
    {
        p.push(Color { r: 0, g: 0, b: 0 });
        k = k + 1;
    }
    p
}

/// Pixel counts of the first `l` mip levels together.
pub open spec fn spec_partial_pixels(mips: Seq<RgbImage>, l: int) -> int
    decreases l,
{
    if l <= 0 {
        0
    } else {
        spec_partial_pixels(mips, l - 1) + spec_pixels(mips[l - 1])
    }
}

} // verus!
