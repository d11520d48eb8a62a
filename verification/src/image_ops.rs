//! The trusted boundary to the `image` crate: decoding, resizing, cropping
//! and JPEG re-encoding of pixel data. Every image value is converted to
//! 8-bit RGB at this boundary, so the contracts all speak of one layout:
//! the flat row-major RGB byte contents, three bytes per pixel.
use vstd::prelude::*;

verus! {

#[verifier::external_type_specification]
#[verifier::external_body]
pub struct ExDynamicImage(image::DynamicImage);

/// The dimensions (width, height) of an image value.
pub uninterp spec fn image_dims(img: image::DynamicImage) -> (nat, nat);

/// The flat row-major 8-bit RGB contents of an image value: pixel (x, y)
/// occupies the three bytes starting at `(y * width + x) * 3`.
pub uninterp spec fn image_rgb(img: image::DynamicImage) -> Seq<u8>;

/// What decoding a byte string yields: `None` when the bytes are not a
/// supported image, otherwise the width, height and RGB contents. Decoding
/// is a pure function of the bytes.
pub uninterp spec fn decoded_image(b: Seq<u8>) -> Option<(nat, nat, Seq<u8>)>;

/// What resampling RGB contents of dimensions (w, h) to (nw, nh) yields:
/// a pure function of the contents and the four dimensions.
pub uninterp spec fn resized_rgb(rgb: Seq<u8>, w: nat, h: nat, nw: nat, nh: nat) -> Seq<u8>;

/// What JPEG-encoding RGB contents of dimensions (w, h) at the encoder's
/// default quality yields: a pure function of the contents and dimensions.
pub uninterp spec fn jpeg_encoded(rgb: Seq<u8>, w: nat, h: nat) -> Seq<u8>;

/// The `w * h` sub-rectangle at offset (x0, y0) of flat row-major RGB
/// contents whose row length is `src_w` pixels.
pub open spec fn cropped_rgb(src: Seq<u8>, src_w: int, x0: int, y0: int, w: int, h: int) -> Seq<u8> {
    Seq::new(
        (3 * w * h) as nat,
        |k: int|
            {
                let row = k / (3 * w);
                let rem = k % (3 * w);
                let col = rem / 3;
                let c = rem % 3;
                src[((y0 + row) * src_w + (x0 + col)) * 3 + c]
            },
    )
}

/// Relies on image::load_from_memory (the format is guessed from the bytes)
/// and DynamicImage::to_rgb8: decoding is a pure function of the bytes, and
/// the conversion to 8-bit RGB yields a buffer of 3 * width * height bytes.
#[verifier::external_body]
pub(crate) fn decode_image(bytes: &[u8]) -> (r: Result<image::DynamicImage, String>)
    ensures
        r is Ok <==> decoded_image(bytes@) is Some,
        (r matches Ok(img) ==> {
            let (w, h, rgb) = decoded_image(bytes@).unwrap();
            &&& image_dims(img) == (w, h)
            &&& image_rgb(img) == rgb
            &&& rgb.len() == 3 * w * h
        }),
{
    match image::load_from_memory(bytes) {
        Ok(img) => Ok(image::DynamicImage::ImageRgb8(img.to_rgb8())),
        Err(e) => Err(format!("decoding errored due to {e}")),
    }
}

/// Relies on image::GenericImageView::dimensions: returns the width and
/// height of the image.
#[verifier::external_body]
pub(crate) fn dims_of(img: &image::DynamicImage) -> (r: (u32, u32))
    ensures
        image_dims(*img) == (r.0 as nat, r.1 as nat),
{
    image::GenericImageView::dimensions(img)
}

/// Relies on DynamicImage::to_rgb8 and ImageBuffer::into_raw: the flat
/// row-major RGB contents, three bytes per pixel.
#[verifier::external_body]
pub(crate) fn image_raw_rgb(img: &image::DynamicImage) -> (r: Vec<u8>)
    ensures
        r@ == image_rgb(*img),
        r@.len() == 3 * image_dims(*img).0 * image_dims(*img).1,
{
    img.to_rgb8().into_raw()
}

/// Relies on image::imageops::resize with the Lanczos3 filter: resampling
/// the 8-bit RGB contents is a pure function of those contents and the
/// requested dimensions, and the result has exactly those dimensions.
#[verifier::external_body]
pub(crate) fn resize_image(img: &image::DynamicImage, nw: u32, nh: u32) -> (r: image::DynamicImage)
    requires
        1 <= nw,
        1 <= nh,
        3 * nw * nh <= usize::MAX,
    ensures
        image_dims(r) == (nw as nat, nh as nat),
        image_rgb(r) == resized_rgb(
            image_rgb(*img),
            image_dims(*img).0,
            image_dims(*img).1,
            nw as nat,
            nh as nat,
        ),
        image_rgb(r).len() == 3 * nw * nh,
{
    let resized = image::imageops::resize(
        &img.to_rgb8(),
        nw,
        nh,
        image::imageops::FilterType::Lanczos3,
    );
    image::DynamicImage::ImageRgb8(resized)
}

/// Relies on image::imageops::crop_imm and SubImage::to_image: with the
/// rectangle inside the image, the result is exactly that sub-rectangle of
/// the RGB contents.
#[verifier::external_body]
pub(crate) fn crop_image(img: &image::DynamicImage, x0: u32, y0: u32, w: u32, h: u32) -> (r:
    image::DynamicImage)
    requires
        1 <= w,
        1 <= h,
        x0 + w <= image_dims(*img).0,
        y0 + h <= image_dims(*img).1,
    ensures
        image_dims(r) == (w as nat, h as nat),
        image_rgb(r) == cropped_rgb(
            image_rgb(*img),
            image_dims(*img).0 as int,
            x0 as int,
            y0 as int,
            w as int,
            h as int,
        ),
        image_rgb(r).len() == 3 * w * h,
{
    let cropped = image::imageops::crop_imm(&img.to_rgb8(), x0, y0, w, h).to_image();
    image::DynamicImage::ImageRgb8(cropped)
}

/// Relies on image::codecs::jpeg::JpegEncoder (default quality) writing to a
/// Vec, which never fails as a sink: encoding is a pure function of the RGB
/// contents and dimensions, and succeeds whenever both dimensions fit in 16
/// bits, the only dimension check the encoder makes.
#[verifier::external_body]
pub(crate) fn encode_jpeg(img: &image::DynamicImage) -> (r: Result<Vec<u8>, String>)
    ensures
        (r matches Ok(b) ==> b@ == jpeg_encoded(
            image_rgb(*img),
            image_dims(*img).0,
            image_dims(*img).1,
        )),
        1 <= image_dims(*img).0 <= 65535 && 1 <= image_dims(*img).1 <= 65535 ==> r is Ok,
{
    let rgb = img.to_rgb8();
    let mut out: Vec<u8> = Vec::new();
    let mut encoder = image::codecs::jpeg::JpegEncoder::new(&mut out);
    match encoder.encode_image(&rgb) {
        Ok(()) => Ok(out),
        Err(e) => Err(format!("saving image to jpeg buffer failed due to {e}")),
    }
}

} // verus!
