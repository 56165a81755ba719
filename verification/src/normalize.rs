use vstd::prelude::*;

use crate::errors::ImageError;

verus! {

/// The transfer budget: the embedded image payload may not exceed 1 MiB.
pub const TRANSFER_BUDGET_BYTES: usize = 1024 * 1024;

/// The long edge an oversized image is scaled to before re-encoding.
pub const MAX_LONG_EDGE: u32 = 1400;

/// What decoding standard base64 (with padding) yields: a pure function of
/// the text alone; nothing for text outside the alphabet or with bad padding.
pub uninterp spec fn b64_decode_of(s: Seq<char>) -> Option<Seq<u8>>;

/// What encoding bytes as standard base64 (with padding) yields.
pub uninterp spec fn b64_encode_of(b: Seq<u8>) -> Seq<char>;

/// Relies on base64::engine::general_purpose::STANDARD.decode: the bytes are a
/// function of the text alone; malformed alphabet or padding is rejected.
#[verifier::external_body]
fn b64_decode(s: &str) -> (r: Option<Vec<u8>>)
    ensures
        r is Some <==> b64_decode_of(s@) is Some,
        r matches Some(b) ==> Some(b@) == b64_decode_of(s@),
{
    match base64::Engine::decode(&base64::engine::general_purpose::STANDARD, s) {
        Ok(b) => Some(b),
        Err(_) => None,
    }
}

/// Relies on base64::engine::general_purpose::STANDARD.encode, and on
/// STANDARD.decode being its inverse.
#[verifier::external_body]
fn b64_encode(b: &Vec<u8>) -> (r: String)
    ensures
        r@ == b64_encode_of(b@),
        b64_decode_of(r@) == Some(b@),
{
    base64::Engine::encode(&base64::engine::general_purpose::STANDARD, b)
}

/// Declares image::DynamicImage for use in signatures; the decoded raster
/// is opaque here and only the crate's own wrappers touch it.
#[verifier::external_type_specification]
#[verifier::external_body]
pub struct ExDynamicImage(image::DynamicImage);

/// Whether image::load_from_memory recognizes the bytes as a raster image:
/// a pure function of the bytes alone.
pub uninterp spec fn raster_ok_of(data: Seq<u8>) -> bool;

/// What encoding a raster as a JPEG at a given quality yields: a pure
/// function of the raster and the quality alone; nothing when the encoder
/// reports an error.
pub uninterp spec fn jpeg_of(img: image::DynamicImage, quality: u8) -> Option<Seq<u8>>;

/// Relies on image::load_from_memory: decodes a raster image, guessing the
/// format; whether it succeeds depends on the bytes alone.
#[verifier::external_body]
fn load_image(data: &Vec<u8>) -> (r: Option<image::DynamicImage>)
    ensures
        r is Some <==> raster_ok_of(data@),
{
    image::load_from_memory(data.as_slice()).ok()
}

/// Relies on image::GenericImageView::dimensions: the image's width and height.
#[verifier::external_body]
fn image_dimensions(img: &image::DynamicImage) -> (r: (u32, u32)) {
    image::GenericImageView::dimensions(img)
}

/// Relies on image::DynamicImage::resize: fits the image within the given
/// bounds with the Triangle filter; bounds that round to zero are clamped to one.
#[verifier::external_body]
fn resize_image(img: &image::DynamicImage, w: u32, h: u32) -> (r: image::DynamicImage) {
    img.resize(w, h, image::imageops::FilterType::Triangle)
}

/// Relies on image::DynamicImage::write_to with ImageOutputFormat::Jpeg:
/// encodes the raster as a JPEG at the given quality; the bytes depend on
/// the raster and the quality alone.
#[verifier::external_body]
fn encode_jpeg(img: &image::DynamicImage, quality: u8) -> (r: Option<Vec<u8>>)
    requires
        1 <= quality <= 100,
    ensures
        r is Some <==> jpeg_of(*img, quality) is Some,
        r matches Some(b) ==> Some(b@) == jpeg_of(*img, quality),
{
    let mut buf: Vec<u8> = Vec::new();
    let mut cursor = std::io::Cursor::new(&mut buf);
    match img.write_to(&mut cursor, image::ImageOutputFormat::Jpeg(quality)) {
        Ok(()) => Some(buf),
        Err(_) => None,
    }
}

pub open spec fn spec_long_edge(w: u32, h: u32) -> int {
    if w >= h {
        w as int
    } else {
        h as int
    }
}

/// Each dimension is multiplied by the uniform ratio 1400 / max(width, height),
/// truncating the result. An image whose long edge is already under 1400 is
/// scaled up by the same rule.
pub fn scaled_dimensions(w: u32, h: u32) -> (r: (u32, u32))
    requires
        spec_long_edge(w, h) >= 1,
    ensures
        r.0 as int == (w as int * MAX_LONG_EDGE) / spec_long_edge(w, h),
        r.1 as int == (h as int * MAX_LONG_EDGE) / spec_long_edge(w, h),
        r.0 <= MAX_LONG_EDGE,
        r.1 <= MAX_LONG_EDGE,
{
    let maxd: u64 = if w >= h {
        w as u64
    } else {
        h as u64
    };
    proof {
        assert((w as int * MAX_LONG_EDGE) / (maxd as int) <= MAX_LONG_EDGE) by (nonlinear_arith)
            requires
                w as int <= maxd as int,
                maxd as int >= 1,
        ;
        assert((h as int * MAX_LONG_EDGE) / (maxd as int) <= MAX_LONG_EDGE) by (nonlinear_arith)
            requires
                h as int <= maxd as int,
                maxd as int >= 1,
        ;
        assert((w as int * MAX_LONG_EDGE) / (maxd as int) >= 0) by (nonlinear_arith)
            requires
                w as int >= 0,
                maxd as int >= 1,
        ;
        assert((h as int * MAX_LONG_EDGE) / (maxd as int) >= 0) by (nonlinear_arith)
            requires
                h as int >= 0,
                maxd as int >= 1,
        ;
    }
    let nw: u32 = ((w as u64) * (MAX_LONG_EDGE as u64) / maxd) as u32;
    let nh: u32 = ((h as u64) * (MAX_LONG_EDGE as u64) / maxd) as u32;
    (nw, nh)
}

/// A quality the search may attempt: 80 down to 10 in steps of 5.
pub open spec fn valid_quality(q: u8) -> bool {
    10 <= q <= 80 && (q as int) % 5 == 0
}

/// The descending quality schedule: 80, 75, ..., 10.
pub open spec fn quality_schedule() -> Seq<u8> {
    Seq::new(15, |i: int| (80 - 5 * i) as u8)
}

/// The quality search space: exactly fifteen attempts, strictly decreasing in
/// steps of five, each within the valid range, and every valid quality is on
/// the schedule.
pub proof fn lemma_quality_schedule()
    ensures
        quality_schedule().len() == 15,
        quality_schedule()[0] == 80,
        quality_schedule()[14] == 10,
        forall|i: int| 0 <= i < 15 ==> valid_quality(#[trigger] quality_schedule()[i]),
        forall|i: int|
            0 <= i < 14 ==> #[trigger] quality_schedule()[i + 1] as int == quality_schedule()[i]
                - 5,
        forall|q: u8| valid_quality(q) ==> quality_schedule().contains(q),
{
    assert forall|q: u8| valid_quality(q) implies quality_schedule().contains(q) by {
        let i = (80 - q as int) / 5;
        assert((80 - q as int) % 5 == 0);
        assert(quality_schedule()[i] == q);
    }
}

/// Walks the quality schedule downward and returns the first JPEG encoding of
/// the image that fits the transfer budget, together with the quality used:
/// the largest valid quality whose encoding fits, every higher one having
/// come out over budget. Fails with TooLarge exactly when every quality on
/// the schedule encodes over budget, and with Encode when the encoder
/// refuses some attempted quality.
pub fn compress_to_budget(img: &image::DynamicImage) -> (r: Result<(Vec<u8>, u8), ImageError>)
    ensures
        r matches Ok(p) ==> p.0@.len() <= TRANSFER_BUDGET_BYTES && valid_quality(p.1)
            && quality_schedule().contains(p.1) && jpeg_of(*img, p.1) == Some(p.0@),
        r matches Ok(p) ==> forall|q: u8|
            valid_quality(q) && q > p.1 ==> (#[trigger] jpeg_of(*img, q) matches Some(b)
                && b.len() > TRANSFER_BUDGET_BYTES),
        r == Err::<(Vec<u8>, u8), ImageError>(ImageError::TooLarge) ==> forall|q: u8|
            valid_quality(q) ==> (#[trigger] jpeg_of(*img, q) matches Some(b) && b.len()
                > TRANSFER_BUDGET_BYTES),
        r == Err::<(Vec<u8>, u8), ImageError>(ImageError::Encode) ==> exists|q: u8|
            valid_quality(q) && #[trigger] jpeg_of(*img, q) is None,
        r matches Err(e) ==> e == ImageError::TooLarge || e == ImageError::Encode,
{
    let mut quality: u8 = 80;
    let ghost mut attempts: int = 0;
    loop
        invariant
            valid_quality(quality),
            0 <= attempts <= 14,
            quality as int == 80 - 5 * attempts,
            quality == quality_schedule()[attempts],
            forall|q: u8|
                valid_quality(q) && q > quality ==> (#[trigger] jpeg_of(*img, q) matches Some(b)
                    && b.len() > TRANSFER_BUDGET_BYTES),
        decreases quality,
    {
        let buf = match encode_jpeg(img, quality) {
            Some(b) => b,
            None => {
                proof {
                    assert(valid_quality(quality) && jpeg_of(*img, quality) is None);
                }
                return Err(ImageError::Encode);
            },
        };
        if buf.len() <= TRANSFER_BUDGET_BYTES {
            proof {
                assert(quality_schedule().contains(quality));
            }
            return Ok((buf, quality));
        }
        if quality < 15 {
            proof {
                assert forall|q: u8| valid_quality(q) implies (#[trigger] jpeg_of(*img, q)
                    matches Some(b) && b.len() > TRANSFER_BUDGET_BYTES) by {
                    if q <= quality {
                        assert(q == quality);
                        assert(jpeg_of(*img, quality) == Some(buf@));
                    }
                }
            }
            return Err(ImageError::TooLarge);
        }
        proof {
            assert forall|q: u8|
                valid_quality(q) && q > quality - 5 implies (#[trigger] jpeg_of(*img, q)
                matches Some(b) && b.len() > TRANSFER_BUDGET_BYTES) by {
                if q <= quality {
                    assert(q as int == quality as int) by (nonlinear_arith)
                        requires
                            q as int % 5 == 0,
                            quality as int % 5 == 0,
                            quality as int - 5 < q as int <= quality as int,
                    ;
                    assert(jpeg_of(*img, quality) == Some(buf@));
                }
            }
        }
        quality = quality - 5;
        proof {
            attempts = attempts + 1;
        }
    }
}

/// Normalizes a base64-encoded image to the transfer budget. Input whose raw
/// bytes already fit is returned unchanged, byte for byte, whatever its
/// format; an oversized image is scaled to a 1400-pixel long edge and
/// re-encoded as a JPEG whose size fits the budget.
pub fn normalize_image(input: &String) -> (r: Result<String, ImageError>)
    ensures
        b64_decode_of(input@) is None ==> r == Err::<String, ImageError>(ImageError::Decode),
        (b64_decode_of(input@) matches Some(raw) && raw.len() <= TRANSFER_BUDGET_BYTES) ==> (
        r matches Ok(out) && out@ == input@),
        r matches Ok(out) ==> (b64_decode_of(input@) matches Some(raw) && (raw.len()
            <= TRANSFER_BUDGET_BYTES ==> out@ == input@) && (raw.len() > TRANSFER_BUDGET_BYTES
            ==> (b64_decode_of(out@) matches Some(b) && b.len() <= TRANSFER_BUDGET_BYTES))),
        (b64_decode_of(input@) matches Some(raw) && raw.len() > TRANSFER_BUDGET_BYTES
            && !raster_ok_of(raw)) ==> r == Err::<String, ImageError>(ImageError::Decode),
        r == Err::<String, ImageError>(ImageError::TooLarge) ==> (b64_decode_of(input@)
            matches Some(raw) && raw.len() > TRANSFER_BUDGET_BYTES && raster_ok_of(raw)),
        r == Err::<String, ImageError>(ImageError::Encode) ==> (b64_decode_of(input@)
            matches Some(raw) && raw.len() > TRANSFER_BUDGET_BYTES && raster_ok_of(raw)),
{
    let raw = match b64_decode(input.as_str()) {
        Some(b) => b,
        None => {
            return Err(ImageError::Decode);
        },
    };
    if raw.len() <= TRANSFER_BUDGET_BYTES {
        return Ok(input.clone());
    }
    let img = match load_image(&raw) {
        Some(i) => i,
        None => {
            return Err(ImageError::Decode);
        },
    };
    let (w, h) = image_dimensions(&img);
    if w == 0 && h == 0 {
        return Err(ImageError::Decode);
    }
    let (nw, nh) = scaled_dimensions(w, h);
    let resized = resize_image(&img, nw, nh);
    let (buf, _quality) = match compress_to_budget(&resized) {
        Ok(p) => p,
        Err(e) => {
            return Err(e);
        },
    };
    let out = b64_encode(&buf);
    Ok(out)
}

} // verus!
