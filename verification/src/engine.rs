//! The transform engine: one pixel buffer per request, mutated through an
//! ordered operation sequence, then encoded into output bytes.
//!
//! The pixel algorithms themselves are the image primitives of photon and of
//! the image crate, reached through trusted wrappers; the engine owns the
//! dispatch, the parameter validation the primitives do not do, and the
//! forward-compatibility rule that an unknown operation is skipped.  An
//! out-of-range crop or a degenerate resize target fails with
//! `InvalidOperation` before any primitive is invoked.

use vstd::arithmetic::div_mod::{
    lemma_fundamental_div_mod, lemma_fundamental_div_mod_converse,
    lemma_mod_division_less_than_divisor,
};
use vstd::prelude::*;

use photon_rs::PhotonImage;

use crate::error::ServiceError;
use crate::ops::Operation;
use crate::ops::ResizeMode;
use crate::ops::SampleFilter;

verus! {

// ---------------------------------------------------------------------------
// The pixel-buffer model
// ---------------------------------------------------------------------------

#[verifier::external_type_specification]
#[verifier::external_body]
pub struct ExPhotonImage(PhotonImage);

#[verifier::external_type_specification]
#[verifier::external_body]
pub struct ExPhotonError(photon_rs::native::Error);

/// What a pixel buffer holds: its pixels in row-major order, each packed
/// into one value (red, green, blue, alpha from the highest byte down).
pub uninterp spec fn img_pixels(img: PhotonImage) -> Seq<u32>;

/// The width of a pixel buffer.
pub uninterp spec fn img_w(img: PhotonImage) -> u32;

/// The height of a pixel buffer.
pub uninterp spec fn img_h(img: PhotonImage) -> u32;

/// The mathematical state of one pixel buffer.
pub struct ImgModel {
    pub width: u32,
    pub height: u32,
    pub pixels: Seq<u32>,
}

/// The model of a buffer value.
pub open spec fn model_of(img: PhotonImage) -> ImgModel {
    ImgModel { width: img_w(img), height: img_h(img), pixels: img_pixels(img) }
}

/// A consistent buffer: one pixel per grid cell.
pub open spec fn img_wf(m: ImgModel) -> bool {
    m.pixels.len() == m.width * m.height
}

/// The raw byte view of packed pixels, four bytes per pixel, highest first.
pub open spec fn bytes_of_pixels(p: Seq<u32>) -> Seq<u8> {
    Seq::new(
        4 * p.len(),
        |i: int|
            if i % 4 == 0 {
                ((p[i / 4] >> 24) & 0xff) as u8
            } else if i % 4 == 1 {
                ((p[i / 4] >> 16) & 0xff) as u8
            } else if i % 4 == 2 {
                ((p[i / 4] >> 8) & 0xff) as u8
            } else {
                (p[i / 4] & 0xff) as u8
            },
    )
}

// ---------------------------------------------------------------------------
// Exact pixel semantics of crop and the flips
// ---------------------------------------------------------------------------

/// The pixels of the rectangle `[x1, x2) x [y1, y2)` of a `w`-wide buffer.
pub open spec fn crop_px(p: Seq<u32>, w: u32, x1: u32, y1: u32, x2: u32, y2: u32) -> Seq<u32> {
    let cw = x2 - x1;
    Seq::new(
        ((x2 - x1) * (y2 - y1)) as nat,
        |i: int| p[(y1 + i / cw) * w + x1 + i % cw],
    )
}

/// The pixels of a buffer mirrored along the vertical axis: row by row, the
/// pixel at column `x` comes from column `w - 1 - x`.
pub open spec fn flip_h_px(p: Seq<u32>, w: u32, h: u32) -> Seq<u32> {
    Seq::new(p.len(), |i: int| p[(i / (w as int)) * w + (w - 1 - i % (w as int))])
}

/// The pixels of a buffer mirrored along the horizontal axis: the pixel in
/// row `y` comes from row `h - 1 - y`.
pub open spec fn flip_v_px(p: Seq<u32>, w: u32, h: u32) -> Seq<u32> {
    Seq::new(p.len(), |i: int| p[(h - 1 - i / (w as int)) * w + i % (w as int)])
}

// ---------------------------------------------------------------------------
// Named results of the remaining primitives
// ---------------------------------------------------------------------------

/// What decoding raw source bytes yields: the buffer's model, or nothing
/// where the bytes are not a recognizable image.  Decoding is a function of
/// the bytes alone.
pub uninterp spec fn photon_decoded(data: Seq<u8>) -> Option<ImgModel>;

/// Whether encoding a buffer into an output format succeeds; a function of
/// the pixels, the dimensions and the format alone.
pub uninterp spec fn encode_ok(p: Seq<u32>, w: u32, h: u32, fmt: u8, quality: u8) -> bool;

/// What photon's contrast adjustment makes of one pixel: the adjustment is
/// pointwise, each output pixel a function of its own old value and the
/// level alone.
pub uninterp spec fn contrast_pixel(px: u32, level: i16) -> u32;

/// What photon's named preset filter makes of a buffer's pixels.
pub uninterp spec fn filter_px(p: Seq<u32>, name: Seq<char>) -> Seq<u32>;

/// What photon's sampling resize makes of a buffer, by source and target
/// dimensions and the wire code of the sampling filter.
pub uninterp spec fn resize_px(p: Seq<u32>, w: u32, h: u32, tw: u32, th: u32, sample: u8) -> Seq<
    u32,
>;

/// What photon's seam-carve resize makes of a buffer.
pub uninterp spec fn carve_px(p: Seq<u32>, w: u32, h: u32, tw: u32, th: u32) -> Seq<u32>;

/// What compositing an overlay at an offset makes of a buffer's pixels.
pub uninterp spec fn overlay_px(
    p: Seq<u32>,
    w: u32,
    h: u32,
    wp: Seq<u32>,
    ww: u32,
    wh: u32,
    x: u32,
    y: u32,
) -> Seq<u32>;

/// What encoding a buffer into an output format yields, by the format's
/// wire code and quality.
pub uninterp spec fn encoded_image(p: Seq<u32>, w: u32, h: u32, fmt: u8, quality: u8) -> Seq<u8>;

// ---------------------------------------------------------------------------
// Trusted wrappers around the image primitives
// ---------------------------------------------------------------------------

/// Relies on photon_rs::native::open_image_from_bytes: whether bytes decode
/// depends on the bytes alone; recognizable bytes decode to the buffer the
/// name stands for, whose pixel count matches its dimensions.
#[verifier::external_body]
fn photon_decode(data: &[u8]) -> (r: Result<PhotonImage, photon_rs::native::Error>)
    ensures
        r is Ok <==> photon_decoded(data@) is Some,
        r matches Ok(img) ==> img_wf(model_of(img)) && model_of(img) == photon_decoded(
            data@,
        ).unwrap(),
{
    photon_rs::native::open_image_from_bytes(data)
}

/// Relies on photon_rs::PhotonImage::get_width.
#[verifier::external_body]
fn photon_width(img: &PhotonImage) -> (r: u32)
    ensures
        r == img_w(*img),
{
    img.get_width()
}

/// Relies on photon_rs::PhotonImage::get_height.
#[verifier::external_body]
fn photon_height(img: &PhotonImage) -> (r: u32)
    ensures
        r == img_h(*img),
{
    img.get_height()
}

/// Relies on photon_rs::PhotonImage::get_raw_pixels: the buffer's bytes in
/// row-major RGBA order, four per pixel.
#[verifier::external_body]
fn photon_raw(img: &PhotonImage) -> (r: Vec<u8>)
    ensures
        r@ == bytes_of_pixels(img_pixels(*img)),
{
    img.get_raw_pixels()
}

/// Relies on photon_rs::PhotonImage::clone.
#[verifier::external_body]
fn photon_clone(img: &PhotonImage) -> (r: PhotonImage)
    ensures
        model_of(r) == model_of(*img),
{
    img.clone()
}

/// Relies on photon_rs::transform::crop: the result is the requested
/// rectangle of the source, read pixel by pixel.
#[verifier::external_body]
fn photon_crop(img: &mut PhotonImage, x1: u32, y1: u32, x2: u32, y2: u32)
    requires
        img_wf(model_of(*old(img))),
        x1 < x2 <= img_w(*old(img)),
        y1 < y2 <= img_h(*old(img)),
    ensures
        img_w(*final(img)) == x2 - x1,
        img_h(*final(img)) == y2 - y1,
        img_pixels(*final(img)) == crop_px(
            img_pixels(*old(img)),
            img_w(*old(img)),
            x1,
            y1,
            x2,
            y2,
        ),
        img_wf(model_of(*final(img))),
{
    let cropped = photon_rs::transform::crop(img, x1, y1, x2, y2);
    *img = cropped;
}

/// Relies on photon_rs::transform::fliph: the pixel at column x moves to
/// column width - 1 - x of its row; dimensions are kept.
#[verifier::external_body]
fn photon_fliph(img: &mut PhotonImage)
    requires
        img_wf(model_of(*old(img))),
    ensures
        img_w(*final(img)) == img_w(*old(img)),
        img_h(*final(img)) == img_h(*old(img)),
        img_pixels(*final(img)) == flip_h_px(
            img_pixels(*old(img)),
            img_w(*old(img)),
            img_h(*old(img)),
        ),
        img_wf(model_of(*final(img))),
{
    photon_rs::transform::fliph(img)
}

/// Relies on photon_rs::transform::flipv: the pixel in row y moves to row
/// height - 1 - y of its column; dimensions are kept.
#[verifier::external_body]
fn photon_flipv(img: &mut PhotonImage)
    requires
        img_wf(model_of(*old(img))),
    ensures
        img_w(*final(img)) == img_w(*old(img)),
        img_h(*final(img)) == img_h(*old(img)),
        img_pixels(*final(img)) == flip_v_px(
            img_pixels(*old(img)),
            img_w(*old(img)),
            img_h(*old(img)),
        ),
        img_wf(model_of(*final(img))),
{
    photon_rs::transform::flipv(img)
}

/// Relies on photon_rs::effects::adjust_contrast: a pointwise adjustment —
/// each output pixel is a function of its own old value and the level alone
/// (a lookup table built from the level) — and dimensions are kept.
#[verifier::external_body]
fn photon_contrast(img: &mut PhotonImage, level: i16)
    requires
        img_wf(model_of(*old(img))),
    ensures
        img_w(*final(img)) == img_w(*old(img)),
        img_h(*final(img)) == img_h(*old(img)),
        img_pixels(*final(img)) == img_pixels(*old(img)).map_values(
            (|px: u32| contrast_pixel(px, level)),
        ),
        img_wf(model_of(*final(img))),
{
    photon_rs::effects::adjust_contrast(img, level.into())
}

/// Relies on photon_rs::filters::filter: a per-pixel preset that depends on
/// the pixels and the filter name alone and keeps dimensions.
#[verifier::external_body]
fn photon_filter(img: &mut PhotonImage, name: &str)
    requires
        img_wf(model_of(*old(img))),
    ensures
        img_w(*final(img)) == img_w(*old(img)),
        img_h(*final(img)) == img_h(*old(img)),
        img_pixels(*final(img)) == filter_px(img_pixels(*old(img)), name@),
        img_wf(model_of(*final(img))),
{
    photon_rs::filters::filter(img, name)
}

/// Relies on photon_rs::transform::resize: the result has exactly the
/// requested dimensions and depends on the source and the sampling filter
/// alone.
#[verifier::external_body]
fn photon_resize(img: &mut PhotonImage, width: u32, height: u32, sample: SampleFilter)
    requires
        img_wf(model_of(*old(img))),
        sample != SampleFilter::Undefined,
        width >= 1,
        height >= 1,
    ensures
        img_w(*final(img)) == width,
        img_h(*final(img)) == height,
        img_pixels(*final(img)) == resize_px(
            img_pixels(*old(img)),
            img_w(*old(img)),
            img_h(*old(img)),
            width,
            height,
            crate::codec::sample_byte(sample),
        ),
        img_wf(model_of(*final(img))),
{
    let filter = match sample {
        SampleFilter::Undefined => photon_rs::transform::SamplingFilter::Nearest,  // ruled out by the requires
        SampleFilter::Nearest => photon_rs::transform::SamplingFilter::Nearest,
        SampleFilter::Triangle => photon_rs::transform::SamplingFilter::Triangle,
        SampleFilter::CatmullRom => photon_rs::transform::SamplingFilter::CatmullRom,
        SampleFilter::Gaussian => photon_rs::transform::SamplingFilter::Gaussian,
        SampleFilter::Lanczos3 => photon_rs::transform::SamplingFilter::Lanczos3,
    };
    let resized = photon_rs::transform::resize(img, width, height, filter);
    *img = resized;
}

/// Relies on photon_rs::transform::seam_carve: shrinking to dimensions no
/// larger than the source yields exactly the requested dimensions.
#[verifier::external_body]
fn photon_carve(img: &mut PhotonImage, width: u32, height: u32)
    requires
        img_wf(model_of(*old(img))),
        1 <= width <= img_w(*old(img)),
        1 <= height <= img_h(*old(img)),
    ensures
        img_w(*final(img)) == width,
        img_h(*final(img)) == height,
        img_pixels(*final(img)) == carve_px(
            img_pixels(*old(img)),
            img_w(*old(img)),
            img_h(*old(img)),
            width,
            height,
        ),
        img_wf(model_of(*final(img))),
{
    let carved = photon_rs::transform::seam_carve(img, width, height);
    *img = carved;
}

/// Whether the pixel at index `i` of a `w`-wide buffer lies outside the
/// rectangle of an `ww` x `wh` overlay placed at offset `(x, y)`.
pub open spec fn outside_overlay(i: int, w: u32, x: u32, y: u32, ww: u32, wh: u32) -> bool {
    let col = i % (w as int);
    let row = i / (w as int);
    col < x || col >= x + ww || row < y || row >= y + wh
}

/// Relies on photon_rs::multiple::watermark (image::imageops::overlay
/// underneath): the overlay is composited at the offset, clipped to the
/// buffer; dimensions are kept, and every pixel outside the overlay's
/// rectangle is left exactly as it was.
#[verifier::external_body]
fn photon_watermark(img: &mut PhotonImage, wm: &PhotonImage, x: u32, y: u32)
    requires
        img_wf(model_of(*old(img))),
        img_wf(model_of(*wm)),
    ensures
        img_w(*final(img)) == img_w(*old(img)),
        img_h(*final(img)) == img_h(*old(img)),
        img_pixels(*final(img)) == overlay_px(
            img_pixels(*old(img)),
            img_w(*old(img)),
            img_h(*old(img)),
            img_pixels(*wm),
            img_w(*wm),
            img_h(*wm),
            x,
            y,
        ),
        forall|i: int|
            0 <= i < img_pixels(*old(img)).len() && outside_overlay(
                i,
                img_w(*old(img)),
                x,
                y,
                img_w(*wm),
                img_h(*wm),
            ) ==> #[trigger] img_pixels(*final(img))[i] == img_pixels(*old(img))[i],
        img_wf(model_of(*final(img))),
{
    photon_rs::multiple::watermark(img, wm, x as i64, y as i64)
}

/// The sampling filter a resize actually runs with: a client that chose no
/// filter gets nearest-neighbour.
pub open spec fn effective_sample(f: SampleFilter) -> SampleFilter {
    match f {
        SampleFilter::Undefined => SampleFilter::Nearest,
        _ => f,
    }
}

/// The wire code of an output format.
pub open spec fn fmt_tag(f: OutputFormat) -> u8 {
    match f {
        OutputFormat::Png => 0,
        OutputFormat::Jpeg { .. } => 1,
    }
}

/// The quality setting of an output format; zero where none applies.
pub open spec fn fmt_quality(f: OutputFormat) -> u8 {
    match f {
        OutputFormat::Png => 0,
        OutputFormat::Jpeg { quality } => quality,
    }
}

/// Relies on image::ImageBuffer::from_vec and image::DynamicImage::write_to:
/// whether the encoding succeeds, and what it yields, are functions of the
/// pixels, the dimensions and the format alone.
#[verifier::external_body]
fn encode_image(img: &PhotonImage, format: OutputFormat) -> (r: Option<Vec<u8>>)
    requires
        img_wf(model_of(*img)),
    ensures
        r is Some <==> encode_ok(
            img_pixels(*img),
            img_w(*img),
            img_h(*img),
            fmt_tag(format),
            fmt_quality(format),
        ),
        r matches Some(b) ==> b@ == encoded_image(
            img_pixels(*img),
            img_w(*img),
            img_h(*img),
            fmt_tag(format),
            fmt_quality(format),
        ),
{
    let (w, h, raw) = (img.get_width(), img.get_height(), img.get_raw_pixels());
    let buf = image::ImageBuffer::<image::Rgba<u8>, Vec<u8>>::from_vec(w, h, raw)?;
    let fmt = match format {
        OutputFormat::Png => image::ImageOutputFormat::Png,
        OutputFormat::Jpeg { quality } => image::ImageOutputFormat::Jpeg(quality),
    };
    let mut out: Vec<u8> = Vec::new();
    match image::DynamicImage::ImageRgba8(buf).write_to(&mut std::io::Cursor::new(&mut out), fmt) {
        Ok(()) => Some(out),
        Err(_) => None,
    }
}

// ---------------------------------------------------------------------------
// The output format
// ---------------------------------------------------------------------------

/// The output encodings the engine can finalize a buffer into.
#[derive(Clone, Copy, Debug, PartialEq, Eq, Structural)]
pub enum OutputFormat {
    Png,
    Jpeg { quality: u8 },
}

// ---------------------------------------------------------------------------
// What one operation does to a buffer model
// ---------------------------------------------------------------------------

/// The preset name of a known filter kind.
pub open spec fn filter_name_of(kind: u32) -> Seq<char> {
    if kind == 1 {
        "oceanic"@
    } else if kind == 2 {
        "islands"@
    } else {
        "marine"@
    }
}

/// What applying one operation does: the next buffer model, or `None` where
/// the operation's parameters fail validation against the current buffer.
/// A `Filter` of unspecified or unrecognized kind and an `Unknown` operation
/// leave the buffer untouched.
pub open spec fn apply_op(m: ImgModel, wm: ImgModel, op: Operation) -> Option<ImgModel> {
    match op {
        Operation::Crop { x1, y1, x2, y2 } => if x1 < x2 <= m.width && y1 < y2 <= m.height {
            Some(
                ImgModel {
                    width: (x2 - x1) as u32,
                    height: (y2 - y1) as u32,
                    pixels: crop_px(m.pixels, m.width, x1, y1, x2, y2),
                },
            )
        } else {
            None
        },
        Operation::Contrast { level } => Some(
            ImgModel {
                width: m.width,
                height: m.height,
                pixels: m.pixels.map_values((|px: u32| contrast_pixel(px, level))),
            },
        ),
        Operation::FlipH => Some(
            ImgModel {
                width: m.width,
                height: m.height,
                pixels: flip_h_px(m.pixels, m.width, m.height),
            },
        ),
        Operation::FlipV => Some(
            ImgModel {
                width: m.width,
                height: m.height,
                pixels: flip_v_px(m.pixels, m.width, m.height),
            },
        ),
        Operation::Filter { kind } => if 1 <= kind <= 3 {
            Some(
                ImgModel {
                    width: m.width,
                    height: m.height,
                    pixels: filter_px(m.pixels, filter_name_of(kind)),
                },
            )
        } else {
            Some(m)
        },
        Operation::Resize { width, height, mode, sample } => if width == 0 || height == 0 {
            None
        } else {
            match mode {
                ResizeMode::Normal => Some(
                    ImgModel {
                        width,
                        height,
                        pixels: resize_px(
                            m.pixels,
                            m.width,
                            m.height,
                            width,
                            height,
                            crate::codec::sample_byte(effective_sample(sample)),
                        ),
                    },
                ),
                ResizeMode::ContentAware => if width <= m.width && height <= m.height {
                    Some(
                        ImgModel {
                            width,
                            height,
                            pixels: carve_px(m.pixels, m.width, m.height, width, height),
                        },
                    )
                } else {
                    None
                },
            }
        },
        Operation::Watermark { x, y } => Some(
            ImgModel {
                width: m.width,
                height: m.height,
                pixels: overlay_px(
                    m.pixels,
                    m.width,
                    m.height,
                    wm.pixels,
                    wm.width,
                    wm.height,
                    x,
                    y,
                ),
            },
        ),
        Operation::Unknown { .. } => Some(m),
    }
}

/// What applying a whole sequence does, operation by operation in order;
/// `None` as soon as one operation fails validation.
pub open spec fn apply_ops(m: ImgModel, wm: ImgModel, ops: Seq<Operation>) -> Option<ImgModel>
    decreases ops.len(),
{
    if ops.len() == 0 {
        Some(m)
    } else {
        match apply_op(m, wm, ops[0]) {
            Option::None => None,
            Option::Some(m2) => apply_ops(m2, wm, ops.skip(1)),
        }
    }
}

proof fn lemma_apply_ops_snoc(m: ImgModel, wm: ImgModel, ops: Seq<Operation>, op: Operation)
    ensures
        apply_ops(m, wm, ops + seq![op]) == match apply_ops(m, wm, ops) {
            Option::None => None::<ImgModel>,
            Option::Some(m2) => apply_op(m2, wm, op),
        },
    decreases ops.len(),
{
    let s = ops + seq![op];
    if ops.len() == 0 {
        assert(s[0] == op);
        assert(s.skip(1) =~= Seq::<Operation>::empty());
        match apply_op(m, wm, op) {
            Option::None => {},
            Option::Some(m2) => {
                assert(apply_ops(m2, wm, s.skip(1)) == Some(m2));
            },
        }
    } else {
        assert(s[0] == ops[0]);
        assert(s.skip(1) =~= ops.skip(1) + seq![op]);
        match apply_op(m, wm, ops[0]) {
            Option::None => {},
            Option::Some(m2) => {
                lemma_apply_ops_snoc(m2, wm, ops.skip(1), op);
            },
        }
    }
}

proof fn lemma_apply_ops_concat(m: ImgModel, wm: ImgModel, a: Seq<Operation>, b: Seq<Operation>)
    ensures
        apply_ops(m, wm, a + b) == match apply_ops(m, wm, a) {
            Option::None => None::<ImgModel>,
            Option::Some(m2) => apply_ops(m2, wm, b),
        },
    decreases a.len(),
{
    if a.len() == 0 {
        assert(a + b =~= b);
    } else {
        assert((a + b)[0] == a[0]);
        assert((a + b).skip(1) =~= a.skip(1) + b);
        match apply_op(m, wm, a[0]) {
            Option::None => {},
            Option::Some(m2) => {
                lemma_apply_ops_concat(m2, wm, a.skip(1), b);
            },
        }
    }
}

// ---------------------------------------------------------------------------
// Laws
// ---------------------------------------------------------------------------

/// Law: mirroring horizontally is an involution.  Flipping any consistent
/// buffer twice restores every pixel.
pub proof fn lemma_flip_h_involution(p: Seq<u32>, w: u32, h: u32)
    requires
        p.len() == w * h,
    ensures
        flip_h_px(flip_h_px(p, w, h), w, h) == p,
{
    let q = flip_h_px(p, w, h);
    let qq = flip_h_px(q, w, h);
    assert forall|i: int| 0 <= i < p.len() implies qq[i] == p[i] by {
        let wi = w as int;
        assert(wi >= 1 && (h as int) >= 1) by (nonlinear_arith)
            requires
                0 <= i,
                i < p.len(),
                p.len() == w * h,
                wi == w as int,
        ;
        lemma_fundamental_div_mod(i, wi);
        lemma_mod_division_less_than_divisor(i, wi);
        let d = i / wi;
        let r = i % wi;
        assert(d < h) by (nonlinear_arith)
            requires
                i < w * h,
                i == wi * d + r,
                r >= 0,
                wi == w,
                wi > 0,
        ;
        let j = d * wi + (wi - 1 - r);
        assert(0 <= j < p.len()) by (nonlinear_arith)
            requires
                j == d * wi + (wi - 1 - r),
                0 <= wi - 1 - r < wi,
                0 <= d < h,
                p.len() == w * h,
                wi == w,
        ;
        lemma_fundamental_div_mod_converse(j, wi, d, wi - 1 - r);
        assert(qq[i] == q[j]);
        assert(q[j] == p[j / wi * wi + (wi - 1 - j % wi)]);
        assert(d * wi == wi * d) by (nonlinear_arith);
        assert(j / wi * wi + (wi - 1 - j % wi) == i);
    }
    assert(qq =~= p);
}

/// Law: mirroring vertically is an involution.  Flipping any consistent
/// buffer twice restores every pixel.
pub proof fn lemma_flip_v_involution(p: Seq<u32>, w: u32, h: u32)
    requires
        p.len() == w * h,
    ensures
        flip_v_px(flip_v_px(p, w, h), w, h) == p,
{
    let q = flip_v_px(p, w, h);
    let qq = flip_v_px(q, w, h);
    assert forall|i: int| 0 <= i < p.len() implies qq[i] == p[i] by {
        let wi = w as int;
        assert(wi >= 1 && (h as int) >= 1) by (nonlinear_arith)
            requires
                0 <= i,
                i < p.len(),
                p.len() == w * h,
                wi == w as int,
        ;
        lemma_fundamental_div_mod(i, wi);
        lemma_mod_division_less_than_divisor(i, wi);
        let d = i / wi;
        let r = i % wi;
        assert(d < h) by (nonlinear_arith)
            requires
                i < w * h,
                i == wi * d + r,
                r >= 0,
                wi == w,
                wi > 0,
        ;
        let j = (h - 1 - d) * wi + r;
        assert(0 <= j < p.len()) by (nonlinear_arith)
            requires
                j == (h - 1 - d) * wi + r,
                0 <= r < wi,
                0 <= d < h,
                p.len() == w * h,
                wi == w,
        ;
        lemma_fundamental_div_mod_converse(j, wi, h - 1 - d, r);
        assert(qq[i] == q[j]);
        assert(q[j] == p[(h - 1 - j / wi) * wi + j % wi]);
        assert(d * wi == wi * d) by (nonlinear_arith);
        assert((h - 1 - j / wi) * wi + j % wi == i);
    }
    assert(qq =~= p);
}

/// Law: the filter of unspecified kind, and of any unrecognized kind, is a
/// no-op: the buffer is left exactly as it was.
pub proof fn lemma_filter_noop(m: ImgModel, wm: ImgModel, kind: u32)
    requires
        kind == 0 || kind > 3,
    ensures
        apply_op(m, wm, Operation::Filter { kind }) == Some(m),
{
}

/// Law: forward compatibility.  A sequence containing an unknown operation
/// applies exactly as the sequence without it: the unknown entry leaves the
/// buffer unaffected while every known entry still applies, in order.
pub proof fn lemma_unknown_skipped(
    m: ImgModel,
    wm: ImgModel,
    pre: Seq<Operation>,
    t: u8,
    post: Seq<Operation>,
)
    ensures
        apply_ops(m, wm, pre + seq![Operation::Unknown { tag: t }] + post) == apply_ops(
            m,
            wm,
            pre + post,
        ),
{
    let u = seq![Operation::Unknown { tag: t }];
    lemma_apply_ops_concat(m, wm, pre + u, post);
    lemma_apply_ops_concat(m, wm, pre, post);
    match apply_ops(m, wm, pre + u) {
        Option::None => {},
        Option::Some(_) => {},
    }
    lemma_apply_ops_snoc(m, wm, pre, Operation::Unknown { tag: t });
}

/// Law: resize exactness.  Whenever a resize applies at all, the buffer that
/// comes out has exactly the requested dimensions.
pub proof fn lemma_resize_exact(
    m: ImgModel,
    wm: ImgModel,
    width: u32,
    height: u32,
    mode: ResizeMode,
    sample: SampleFilter,
)
    ensures
        apply_op(m, wm, Operation::Resize { width, height, mode, sample }) matches Some(m2)
            ==> m2.width == width && m2.height == height,
{
}

/// Law: crop validity.  A rectangle inside the buffer yields exactly its own
/// dimensions; an empty or out-of-range rectangle is refused.
pub proof fn lemma_crop_validity(m: ImgModel, wm: ImgModel, x1: u32, y1: u32, x2: u32, y2: u32)
    ensures
        x1 < x2 <= m.width && y1 < y2 <= m.height ==> (apply_op(
            m,
            wm,
            Operation::Crop { x1, y1, x2, y2 },
        ) matches Some(m2) && m2.width == x2 - x1 && m2.height == y2 - y1),
        !(x1 < x2 <= m.width && y1 < y2 <= m.height) ==> apply_op(
            m,
            wm,
            Operation::Crop { x1, y1, x2, y2 },
        ) is None,
{
}

// ---------------------------------------------------------------------------
// The watermark overlay and the engine
// ---------------------------------------------------------------------------

/// The fixed overlay image, loaded once at startup and handed read-only to
/// every engine.
pub struct Watermark {
    img: PhotonImage,
}

impl Watermark {
    /// The overlay's buffer model.
    pub closed spec fn model(&self) -> ImgModel {
        model_of(self.img)
    }

    /// A consistent overlay.
    pub open spec fn wf(&self) -> bool {
        img_wf(self.model())
    }

    /// Decode overlay bytes and scale them to the fixed 64 x 64 overlay
    /// size.  Succeeds exactly when the bytes decode; the overlay is then
    /// the decoded buffer resized to 64 x 64 with nearest sampling.
    /// Unrecognizable bytes fail with `DecodeFailure`.
    pub fn from_bytes(data: &[u8]) -> (r: Result<Watermark, ServiceError>)
        ensures
            match r {
                Ok(wm) => photon_decoded(data@) matches Some(d) && wm.wf() && wm.model().width
                    == 64 && wm.model().height == 64 && wm.model().pixels == resize_px(
                    d.pixels,
                    d.width,
                    d.height,
                    64,
                    64,
                    crate::codec::sample_byte(SampleFilter::Nearest),
                ),
                Err(e) => e == ServiceError::DecodeFailure && photon_decoded(data@) is None,
            },
    {
        match photon_decode(data) {
            Ok(mut img) => {
                photon_resize(&mut img, 64, 64, SampleFilter::Nearest);
                Ok(Watermark { img })
            },
            Err(_) => Err(ServiceError::DecodeFailure),
        }
    }
}

/// The photon-backed transform engine: one exclusively owned pixel buffer,
/// plus the shared overlay's copy, carried from construction to `generate`.
pub struct Photon {
    img: PhotonImage,
    wm: PhotonImage,
}

impl Photon {
    /// The owned buffer's model.
    pub closed spec fn model(&self) -> ImgModel {
        model_of(self.img)
    }

    /// The overlay's model.
    pub closed spec fn wm_model(&self) -> ImgModel {
        model_of(self.wm)
    }

    /// A consistent engine: buffer and overlay each one pixel per cell.
    pub open spec fn wf(&self) -> bool {
        img_wf(self.model()) && img_wf(self.wm_model())
    }

    /// Decode fetched bytes into an engine.  Succeeds exactly when the
    /// bytes decode; the engine's buffer is then the decoded image of the
    /// bytes.  Bytes that are not a recognizable image fail with
    /// `DecodeFailure`.
    pub fn from_bytes(data: &[u8], wm: &Watermark) -> (r: Result<Photon, ServiceError>)
        requires
            wm.wf(),
        ensures
            match r {
                Ok(p) => photon_decoded(data@) matches Some(d) && p.wf() && p.model() == d
                    && p.wm_model() == wm.model(),
                Err(e) => e == ServiceError::DecodeFailure && photon_decoded(data@) is None,
            },
    {
        match photon_decode(data) {
            Ok(img) => Ok(Photon { img, wm: photon_clone(&wm.img) }),
            Err(_) => Err(ServiceError::DecodeFailure),
        }
    }

    /// The buffer's current width.
    pub fn width(&self) -> (r: u32)
        ensures
            r == self.model().width,
    {
        photon_width(&self.img)
    }

    /// The buffer's current height.
    pub fn height(&self) -> (r: u32)
        ensures
            r == self.model().height,
    {
        photon_height(&self.img)
    }

    /// The buffer's raw bytes, four per pixel.
    pub fn raw_pixels(&self) -> (r: Vec<u8>)
        ensures
            r@ == bytes_of_pixels(self.model().pixels),
    {
        photon_raw(&self.img)
    }

    /// Apply one operation to the buffer, after validating its parameters
    /// against the current buffer state; `InvalidOperation` leaves the
    /// buffer untouched.
    pub fn apply_one(&mut self, op: &Operation) -> (r: Result<(), ServiceError>)
        requires
            old(self).wf(),
        ensures
            final(self).wf(),
            final(self).wm_model() == old(self).wm_model(),
            match r {
                Ok(()) => apply_op(old(self).model(), old(self).wm_model(), *op) == Some(
                    final(self).model(),
                ),
                Err(e) => e == ServiceError::InvalidOperation && apply_op(
                    old(self).model(),
                    old(self).wm_model(),
                    *op,
                ) is None && final(self).model() == old(self).model(),
            },
            *op matches Operation::Watermark { x, y } ==> forall|i: int|
                0 <= i < old(self).model().pixels.len() && outside_overlay(
                    i,
                    old(self).model().width,
                    x,
                    y,
                    old(self).wm_model().width,
                    old(self).wm_model().height,
                ) ==> #[trigger] final(self).model().pixels[i] == old(self).model().pixels[i],
    {
        match op {
            Operation::Crop { x1, y1, x2, y2 } => {
                let w = photon_width(&self.img);
                let h = photon_height(&self.img);
                if *x1 < *x2 && *x2 <= w && *y1 < *y2 && *y2 <= h {
                    photon_crop(&mut self.img, *x1, *y1, *x2, *y2);
                    Ok(())
                } else {
                    Err(ServiceError::InvalidOperation)
                }
            },
            Operation::Contrast { level } => {
                photon_contrast(&mut self.img, *level);
                Ok(())
            },
            Operation::FlipH => {
                photon_fliph(&mut self.img);
                Ok(())
            },
            Operation::FlipV => {
                photon_flipv(&mut self.img);
                Ok(())
            },
            Operation::Filter { kind } => {
                if *kind == 1 {
                    photon_filter(&mut self.img, "oceanic");
                } else if *kind == 2 {
                    photon_filter(&mut self.img, "islands");
                } else if *kind == 3 {
                    photon_filter(&mut self.img, "marine");
                }
                Ok(())
            },
            Operation::Resize { width, height, mode, sample } => {
                if *width == 0 || *height == 0 {
                    return Err(ServiceError::InvalidOperation);
                }
                match mode {
                    ResizeMode::Normal => {
                        let chosen = match sample {
                            SampleFilter::Undefined => SampleFilter::Nearest,
                            _ => *sample,
                        };
                        photon_resize(&mut self.img, *width, *height, chosen);
                        Ok(())
                    },
                    ResizeMode::ContentAware => {
                        let w = photon_width(&self.img);
                        let h = photon_height(&self.img);
                        if *width <= w && *height <= h {
                            photon_carve(&mut self.img, *width, *height);
                            Ok(())
                        } else {
                            Err(ServiceError::InvalidOperation)
                        }
                    },
                }
            },
            Operation::Watermark { x, y } => {
                photon_watermark(&mut self.img, &self.wm, *x, *y);
                Ok(())
            },
            Operation::Unknown { .. } => Ok(()),
        }
    }

    /// Apply a whole decoded sequence, in order.  Processing stops at the
    /// first operation that fails validation: the error surfaces and the
    /// partially transformed buffer stays as it was at that point, to be
    /// discarded with the engine.  Unknown operations are skipped, never an
    /// error.
    pub fn apply(&mut self, specs: &[Operation]) -> (r: Result<(), ServiceError>)
        requires
            old(self).wf(),
        ensures
            final(self).wf(),
            final(self).wm_model() == old(self).wm_model(),
            match r {
                Ok(()) => apply_ops(old(self).model(), old(self).wm_model(), specs@) == Some(
                    final(self).model(),
                ),
                Err(e) => e == ServiceError::InvalidOperation && apply_ops(
                    old(self).model(),
                    old(self).wm_model(),
                    specs@,
                ) is None && exists|i: int|
                    0 <= i < specs@.len() && apply_ops(
                        old(self).model(),
                        old(self).wm_model(),
                        #[trigger] specs@.take(i),
                    ) == Some(final(self).model()) && apply_op(
                        final(self).model(),
                        old(self).wm_model(),
                        specs@[i],
                    ) is None,
            },
    {
        let ghost m0 = old(self).model();
        let ghost wm = old(self).wm_model();
        let mut i: usize = 0;
        while i < specs.len()
            invariant
                i <= specs@.len(),
                m0 == old(self).model(),
                wm == old(self).wm_model(),
                self.wf(),
                self.wm_model() == wm,
                apply_ops(m0, wm, specs@.take(i as int)) == Some(self.model()),
            decreases specs@.len() - i,
        {
            let ghost mi = self.model();
            let r = self.apply_one(&specs[i]);
            proof {
                lemma_apply_ops_snoc(m0, wm, specs@.take(i as int), specs@[i as int]);
                assert(specs@.take(i + 1 as int) =~= specs@.take(i as int) + seq![specs@[i as int]]);
            }
            match r {
                Ok(()) => {},
                Err(e) => {
                    proof {
                        lemma_apply_ops_concat(m0, wm, specs@.take(i as int), specs@.skip(i as int));
                        assert(specs@.take(i as int) + specs@.skip(i as int) =~= specs@);
                        assert(specs@.skip(i as int)[0] == specs@[i as int]);
                    }
                    return Err(e);
                },
            }
            i = i + 1;
        }
        proof {
            assert(specs@.take(specs@.len() as int) =~= specs@);
        }
        Ok(())
    }

    /// Consume the engine and encode the buffer into the requested output
    /// format.  Succeeds exactly when the encoder accepts the buffer and
    /// format, and then returns the encoder's bytes; a failed encoding is an
    /// `EncodeFailure`.
    pub fn generate(self, format: OutputFormat) -> (r: Result<Vec<u8>, ServiceError>)
        requires
            self.wf(),
        ensures
            ({
                let ok = encode_ok(
                    self.model().pixels,
                    self.model().width,
                    self.model().height,
                    fmt_tag(format),
                    fmt_quality(format),
                );
                match r {
                    Ok(b) => ok && b@ == encoded_image(
                        self.model().pixels,
                        self.model().width,
                        self.model().height,
                        fmt_tag(format),
                        fmt_quality(format),
                    ),
                    Err(e) => e == ServiceError::EncodeFailure && !ok,
                }
            }),
    {
        match encode_image(&self.img, format) {
            Some(b) => Ok(b),
            None => Err(ServiceError::EncodeFailure),
        }
    }
}

// ---------------------------------------------------------------------------
// The engine traits
// ---------------------------------------------------------------------------

/// An engine: applies an ordered operation sequence to its owned buffer and
/// finalizes the buffer into output bytes.
pub trait Engine {
    /// The well-formedness an engine keeps across its life.
    spec fn engine_wf(&self) -> bool;

    /// The owned buffer's model.
    spec fn engine_model(&self) -> ImgModel;

    /// The overlay's model.
    spec fn engine_wm(&self) -> ImgModel;

    /// Apply a decoded sequence, in order: success exactly when every
    /// operation validates, and the buffer then equals the sequence's fold.
    fn apply(&mut self, specs: &[Operation]) -> (r: Result<(), ServiceError>)
        requires
            old(self).engine_wf(),
        ensures
            final(self).engine_wf(),
            final(self).engine_wm() == old(self).engine_wm(),
            match r {
                Ok(()) => apply_ops(old(self).engine_model(), old(self).engine_wm(), specs@)
                    == Some(final(self).engine_model()),
                Err(e) => e == ServiceError::InvalidOperation && apply_ops(
                    old(self).engine_model(),
                    old(self).engine_wm(),
                    specs@,
                ) is None,
            },
    ;

    /// Encode the buffer into the requested output format.
    fn generate(self, format: OutputFormat) -> (r: Result<Vec<u8>, ServiceError>)
        requires
            self.engine_wf(),
        ensures
            match r {
                Ok(b) => b@ == encoded_image(
                    self.engine_model().pixels,
                    self.engine_model().width,
                    self.engine_model().height,
                    fmt_tag(format),
                    fmt_quality(format),
                ),
                Err(e) => e == ServiceError::EncodeFailure,
            },
    ;
}

impl Engine for Photon {
    open spec fn engine_wf(&self) -> bool {
        self.wf()
    }

    open spec fn engine_model(&self) -> ImgModel {
        self.model()
    }

    open spec fn engine_wm(&self) -> ImgModel {
        self.wm_model()
    }

    fn apply(&mut self, specs: &[Operation]) -> (r: Result<(), ServiceError>) {
        Photon::apply(self, specs)
    }

    fn generate(self, format: OutputFormat) -> (r: Result<Vec<u8>, ServiceError>) {
        Photon::generate(self, format)
    }
}

/// One transform step on an engine; more operation kinds are supported by
/// implementing this for them.
pub trait SpecTransform<T> {
    /// The well-formedness a transform keeps.
    spec fn transform_wf(&self) -> bool;

    /// The buffer model the transform acts on.
    spec fn transform_model(&self) -> ImgModel;

    /// What one operation does to the buffer model, or `None` where its
    /// parameters fail validation.
    spec fn op_effect(&self, op: T) -> Option<ImgModel>;

    /// Transform the owned buffer by one operation.
    fn transform(&mut self, op: T) -> (r: Result<(), ServiceError>)
        requires
            old(self).transform_wf(),
        ensures
            final(self).transform_wf(),
            match r {
                Ok(()) => old(self).op_effect(op) == Some(final(self).transform_model()),
                Err(e) => e == ServiceError::InvalidOperation && old(self).op_effect(op) is None
                    && final(self).transform_model() == old(self).transform_model(),
            },
    ;
}

impl SpecTransform<&Operation> for Photon {
    open spec fn transform_wf(&self) -> bool {
        self.wf()
    }

    open spec fn transform_model(&self) -> ImgModel {
        self.model()
    }

    open spec fn op_effect(&self, op: &Operation) -> Option<ImgModel> {
        apply_op(self.model(), self.wm_model(), *op)
    }

    fn transform(&mut self, op: &Operation) -> (r: Result<(), ServiceError>) {
        self.apply_one(op)
    }
}

} // verus!
