//! Image normalizer, integer part: decode the uploaded bytes, resize so the
//! shorter side matches the model's input size, centre-crop and lay the
//! square out channel-major. Rescaling to [0, 1] and standardizing with the
//! per-channel mean and deviation is done on these bytes by the caller.
use vstd::prelude::*;
use crate::geometry::{crop_to_planes, is_center_crop_chw, lemma_center_crop_unique, lemma_resized_covers_square, resize_dims, resized_dims};

verus! {

/// A decoded image as 8-bit RGB, row-major, three bytes per pixel.
pub struct RgbPixels {
    pub width: u32,
    pub height: u32,
    pub data: Vec<u8>,
}

/// A `3 x size x size` image: `data` holds the red plane, then the green
/// plane, then the blue plane, each row by row.
pub struct ImagePlanes {
    pub size: u32,
    pub data: Vec<u8>,
}

/// Why an upload could not be turned into model input. Every variant is a
/// fault of the input, not of the server.
pub enum ImageLoadError {
    /// The bytes are not an image in a recognised format.
    Undecodable(String),
    /// The image decoded to zero width or zero height.
    EmptyImage,
    /// The resized image would not fit in memory.
    TooLarge,
}

/// What the image decoder makes of `bytes`: width, height and row-major RGB
/// data, or `None` where the bytes are no image it recognises.
pub uninterp spec fn decoded_rgb8(bytes: Seq<u8>) -> Option<(u32, u32, Seq<u8>)>;

/// Row-major RGB data of the `width` x `height` image `pixels` resampled to
/// `new_width` x `new_height` with the Catmull-Rom cubic filter.
pub uninterp spec fn catmull_rom_resized(
    width: u32,
    height: u32,
    pixels: Seq<u8>,
    new_width: u32,
    new_height: u32,
) -> Seq<u8>;

/// Relies on image::ImageReader::with_guessed_format, ImageReader::decode and
/// DynamicImage::to_rgb8: the format is read from the content (an empty
/// buffer matches none, and decode then fails), and the converted buffer is
/// freshly allocated with exactly three bytes per pixel.
#[verifier::external_body]
fn decode_rgb8(bytes: &[u8]) -> (r: Result<RgbPixels, String>)
    ensures
        match r {
            Ok(p) => decoded_rgb8(bytes@) == Some((p.width, p.height, p.data@)) && p.data@.len()
                == p.width * p.height * 3,
            Err(_) => decoded_rgb8(bytes@) is None,
        },
        bytes@.len() == 0 ==> r is Err,
{
    let reader = match image::ImageReader::new(std::io::Cursor::new(bytes)).with_guessed_format() {
        Ok(reader) => reader,
        Err(e) => return Err(e.to_string()),
    };
    let img = match reader.decode() {
        Ok(img) => img.to_rgb8(),
        Err(e) => return Err(e.to_string()),
    };
    Ok(RgbPixels { width: img.width(), height: img.height(), data: img.into_raw() })
}

/// Relies on image::imageops::resize with FilterType::CatmullRom, on an
/// ImageBuffer made by ImageBuffer::from_raw (which accepts a buffer of
/// exactly `width * height * 3` bytes). The result is allocated by
/// ImageBuffer::new with three bytes per pixel; the intermediate buffer holds
/// four floats per pixel of `width` x `new_height`, hence the size bounds.
#[verifier::external_body]
fn resize_catmull_rom(src: RgbPixels, new_width: u32, new_height: u32) -> (r: Vec<u8>)
    requires
        src.data@.len() == src.width * src.height * 3,
        new_width * new_height * 3 <= usize::MAX,
        src.width * new_height * 4 <= usize::MAX,
    ensures
        r@ == catmull_rom_resized(src.width, src.height, src.data@, new_width, new_height),
        r@.len() == new_width * new_height * 3,
{
    let img: image::RgbImage = image::ImageBuffer::from_raw(src.width, src.height, src.data)
        .expect("buffer holds width * height pixels");
    image::imageops::resize(&img, new_width, new_height, image::imageops::FilterType::CatmullRom)
        .into_raw()
}

/// Whether the resize of a `width` x `height` image to shorter side `size`
/// stays within what can be allocated.
pub open spec fn resize_fits(width: nat, height: nat, size: nat) -> bool {
    let (nw, nh) = resized_dims(width, height, size);
    &&& nw <= u32::MAX
    &&& nh <= u32::MAX
    &&& nw * nh * 3 <= usize::MAX
    &&& width * nh * 4 <= usize::MAX
}

/// `r` is what normalizing `bytes` to side `size` gives: undecodable bytes
/// and images with no pixels are refused, as are images whose resize would
/// not fit in memory; any other image becomes the centred square of its
/// Catmull-Rom resize, channel-major.
pub open spec fn load_image_result(
    bytes: Seq<u8>,
    size: nat,
    r: Result<ImagePlanes, ImageLoadError>,
) -> bool {
    match decoded_rgb8(bytes) {
        None => r matches Err(ImageLoadError::Undecodable(_)),
        Some((w, h, px)) => if w == 0 || h == 0 {
            r matches Err(ImageLoadError::EmptyImage)
        } else if !resize_fits(w as nat, h as nat, size) {
            r matches Err(ImageLoadError::TooLarge)
        } else {
            let (nw, nh) = resized_dims(w as nat, h as nat, size);
            r matches Ok(p) && p.size == size && is_center_crop_chw(
                p.data@,
                catmull_rom_resized(w, h, px, nw as u32, nh as u32),
                nw,
                nh,
                size,
            )
        },
    }
}

/// Turns uploaded bytes into the `3 x size x size` channel-major bytes that
/// the model's preprocessing standardizes.
pub fn load_image(image_data: &[u8], image_size: usize) -> (r: Result<ImagePlanes, ImageLoadError>)
    requires
        0 < image_size <= u32::MAX,
    ensures
        load_image_result(image_data@, image_size as nat, r),
        r matches Ok(p) ==> p.data@.len() == 3 * image_size * image_size,
        image_data@.len() == 0 ==> r matches Err(ImageLoadError::Undecodable(_)),
{
    let size: u32 = image_size as u32;
    let img = match decode_rgb8(image_data) {
        Ok(img) => img,
        Err(msg) => return Err(ImageLoadError::Undecodable(msg)),
    };
    if img.width == 0 || img.height == 0 {
        return Err(ImageLoadError::EmptyImage);
    }
    proof {
        lemma_resized_covers_square(img.width as nat, img.height as nat, size as nat);
    }
    let (new_width, new_height) = match resize_dims(img.width, img.height, size) {
        Some(dims) => dims,
        None => return Err(ImageLoadError::TooLarge),
    };
    proof {
        assert(new_width * new_height <= 0xffff_ffffu128 * 0xffff_ffffu128) by (nonlinear_arith)
            requires
                new_width <= 0xffff_ffffu128,
                new_height <= 0xffff_ffffu128,
        ;
        assert(img.width * new_height <= 0xffff_ffffu128 * 0xffff_ffffu128) by (nonlinear_arith)
            requires
                img.width <= 0xffff_ffffu128,
                new_height <= 0xffff_ffffu128,
        ;
    }
    let area: u128 = new_width as u128 * new_height as u128;
    let strip: u128 = img.width as u128 * new_height as u128;
    if area > (usize::MAX / 3) as u128 || strip > (usize::MAX / 4) as u128 {
        return Err(ImageLoadError::TooLarge);
    }
    let resized = resize_catmull_rom(img, new_width, new_height);
    let data = crop_to_planes(&resized, new_width, new_height, size);
    Ok(ImagePlanes { size, data })
}

/// Normalizing depends on the uploaded bytes alone: two requests with the
/// same bytes and size get the same outcome and, on success, the same
/// planes, whatever other requests are doing.
pub proof fn lemma_planes_determined_by_bytes(
    bytes: Seq<u8>,
    size: nat,
    r1: Result<ImagePlanes, ImageLoadError>,
    r2: Result<ImagePlanes, ImageLoadError>,
)
    requires
        load_image_result(bytes, size, r1),
        load_image_result(bytes, size, r2),
    ensures
        r1 is Ok <==> r2 is Ok,
        (r1 is Ok && r2 is Ok) ==> r1->Ok_0.size == r2->Ok_0.size && r1->Ok_0.data@ == r2->Ok_0.data@,
{
    if let (Ok(p1), Ok(p2)) = (r1, r2) {
        if let Some((w, h, px)) = decoded_rgb8(bytes) {
            let (nw, nh) = resized_dims(w as nat, h as nat, size);
            lemma_center_crop_unique(
                p1.data@,
                p2.data@,
                catmull_rom_resized(w, h, px, nw as u32, nh as u32),
                nw,
                nh,
                size,
            );
        }
    }
}

/// Any image the decoder reads, of any size and aspect ratio, whose resize
/// fits in memory becomes exactly `3 x size x size`, cut from a resize whose
/// sides both reach `size`.
pub proof fn lemma_output_is_square(bytes: Seq<u8>, size: nat, r: Result<ImagePlanes, ImageLoadError>)
    requires
        load_image_result(bytes, size, r),
        decoded_rgb8(bytes) matches Some((w, h, _)) && w > 0 && h > 0 && resize_fits(
            w as nat,
            h as nat,
            size,
        ),
    ensures
        r is Ok,
        r->Ok_0.size == size,
        r->Ok_0.data@.len() == 3 * size * size,
        resized_dims(decoded_rgb8(bytes)->Some_0.0 as nat, decoded_rgb8(bytes)->Some_0.1 as nat, size).0 >= size,
        resized_dims(decoded_rgb8(bytes)->Some_0.0 as nat, decoded_rgb8(bytes)->Some_0.1 as nat, size).1 >= size,
{
    let (w, h, _) = decoded_rgb8(bytes)->Some_0;
    lemma_resized_covers_square(w as nat, h as nat, size);
}

} // verus!
