//! The trusted boundary around the `image` crate.
//!
//! A decoded image is modelled as its pixel grid: a sequence of rows, each
//! row a sequence of abstract pixel values. An abstract pixel value encodes
//! the pixel's color type together with its channel values, so equal grids
//! mean behaviourally equal buffers. The grid of a given image value is
//! fixed; what an image read from disk holds is not stated anywhere.

use vstd::prelude::*;

verus! {

#[verifier::external_type_specification]
#[verifier::external_body]
pub struct ExDynamicImage(image::DynamicImage);

/// The pixel grid an image holds: one entry per scanline, top to bottom,
/// each scanline one abstract pixel value per column, left to right.
pub uninterp spec fn img_rows(img: image::DynamicImage) -> Seq<Seq<int>>;

/// The pixel grid that decoding an encoded image (a PNG or JPEG file's
/// bytes, say) yields; a function of the encoded bytes alone, for a fixed
/// build of the decoder.
pub uninterp spec fn decode_rows(bytes: Seq<u8>) -> Seq<Seq<int>>;

/// Whether decoding the bytes succeeds; like the grid, a function of the
/// bytes alone, for a fixed build of the decoder.
pub uninterp spec fn decode_ok(bytes: Seq<u8>) -> bool;

/// The pixel grid that fill-resizing a source grid to `w` by `h` with the
/// Lanczos filter produces; a function of the source grid and the target
/// dimensions alone on a given platform — the resampling arithmetic is
/// floating point, and another platform's math library may differ in the
/// last bit.
pub uninterp spec fn resize_fill_of(rows: Seq<Seq<int>>, w: u32, h: u32) -> Seq<Seq<int>>;

/// A grid is a `w` by `h` rectangle: `h` rows of `w` pixels each.
pub open spec fn rows_wf(rows: Seq<Seq<int>>, w: int, h: int) -> bool {
    &&& rows.len() == h
    &&& forall|i: int| 0 <= i < rows.len() ==> (#[trigger] rows[i]).len() == w
}

/// The `w` by `h` sub-rectangle of a grid whose top-left corner is `(x, y)`.
pub open spec fn sub_rect(rows: Seq<Seq<int>>, x: int, y: int, w: int, h: int) -> Seq<Seq<int>> {
    Seq::new(h as nat, |r: int| rows[y + r].subrange(x, x + w))
}

/// Relies on `image::open`: reads the file at `path` and decodes it. The
/// result depends on the disk, so nothing is promised of the decoded image;
/// the error text is fixed by this wrapper.
#[verifier::external_body]
pub(crate) fn open_image(path: &str) -> (r: Result<image::DynamicImage, String>)
    ensures
        r is Err ==> r.get_Err_0()@ == "failed to open image"@,
{
    image::open(path).map_err(|_| "failed to open image".to_string())
}

/// Relies on `DynamicImage::width` and `DynamicImage::height`: the buffer's
/// dimensions, which are exactly the shape of the image's pixel grid.
#[verifier::external_body]
pub(crate) fn image_dims(img: &image::DynamicImage) -> (r: (u32, u32))
    ensures
        rows_wf(img_rows(*img), r.0 as int, r.1 as int),
{
    (img.width(), img.height())
}

/// Relies on `image::load_from_memory`: decodes an in-memory encoded image.
/// Decoding reads nothing but the bytes, so whether it succeeds and what
/// grid it yields are both their function; the error text is fixed by this
/// wrapper.
#[verifier::external_body]
pub(crate) fn decode_image(bytes: &Vec<u8>) -> (r: Result<image::DynamicImage, String>)
    ensures
        r is Ok <==> decode_ok(bytes@),
        r is Ok ==> img_rows(r.get_Ok_0()) == decode_rows(bytes@),
        r is Err ==> r.get_Err_0()@ == "failed to open image"@,
{
    image::load_from_memory(bytes.as_slice()).map_err(|_| "failed to open image".to_string())
}

/// Relies on `DynamicImage::resize_to_fill`: scales the image so it covers
/// `w` by `h` and crops the overhang, so the result is exactly `w` by `h`;
/// the pixels are a function of the source grid and the target dimensions.
/// The last two bounds keep the covering size within `u32` (with a margin
/// for the crate's floating-point rounding): beyond them `resize_to_fill`
/// clamps its intermediate image and can return fewer rows or columns than
/// asked for.
#[verifier::external_body]
pub(crate) fn resize_image_to_fill(img: &image::DynamicImage, w: u32, h: u32) -> (r:
    image::DynamicImage)
    requires
        1 <= w,
        1 <= h,
        1 <= img_rows(*img).len(),
        1 <= img_rows(*img)[0].len(),
        img_rows(*img)[0].len() * h <= 0xffff_fffe * img_rows(*img).len(),
        img_rows(*img).len() * w <= 0xffff_fffe * img_rows(*img)[0].len(),
    ensures
        img_rows(r) == resize_fill_of(img_rows(*img), w, h),
        rows_wf(img_rows(r), w as int, h as int),
{
    img.resize_to_fill(w, h, image::imageops::FilterType::Lanczos3)
}

/// Relies on `DynamicImage::crop_imm`: for a rectangle that lies within the
/// image, the result is exactly that sub-rectangle of the pixel grid.
#[verifier::external_body]
pub(crate) fn crop_image(img: &image::DynamicImage, x: u32, y: u32, w: u32, h: u32) -> (r:
    image::DynamicImage)
    requires
        y as int + h as int <= img_rows(*img).len(),
        forall|i: int|
            y as int <= i < y as int + h as int ==> x as int + w as int <= (#[trigger] img_rows(
                *img,
            )[i]).len(),
    ensures
        img_rows(r) == sub_rect(img_rows(*img), x as int, y as int, w as int, h as int),
        rows_wf(img_rows(r), w as int, h as int),
{
    img.crop_imm(x, y, w, h)
}

/// Relies on `DynamicImage::save`: encodes the image in the format named by
/// the path's extension and writes the file. Success depends on the disk, so
/// nothing is promised of the outcome.
#[verifier::external_body]
pub(crate) fn save_image(img: &image::DynamicImage, path: &str) -> (r: Result<(), String>) {
    img.save(path).map_err(|err| err.to_string())
}

} // verus!
