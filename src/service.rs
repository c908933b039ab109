//! How a failed request is reported: a fault of the input is an invalid
//! argument, anything else an internal error.
use vstd::prelude::*;
use crate::assembler::ImageAssembler;
use crate::image_prep::{decoded_rgb8, load_image, load_image_result, ImageLoadError, ImagePlanes};

verus! {

/// Why an embedding request failed, before it reaches the wire.
pub enum RequestError {
    /// The permit pool is closed and issues nothing.
    PermitRefused,
    /// The uploaded image could not be turned into model input.
    Image(ImageLoadError),
    /// The tokenizer rejected the text.
    Tokenizer(String),
    /// The model, device or tensor work failed, or the features had norm zero.
    Inference(String),
}

/// The outcome class a failure is reported under.
#[derive(PartialEq, Eq, Structural, Clone, Copy, Debug)]
pub enum FailureKind {
    InvalidArgument,
    Internal,
}

/// Whether `e` is the caller's fault: an image that cannot be decoded or has
/// no pixels. An image too large to resize is an allocation failure.
pub open spec fn is_input_fault(e: RequestError) -> bool {
    e matches RequestError::Image(i) && !(i is TooLarge)
}

/// Only a bad image is the caller's fault; every other failure, the
/// allocation failure of an oversized resize included, is internal.
pub fn failure_kind(e: &RequestError) -> (r: FailureKind)
    ensures
        r == FailureKind::InvalidArgument <==> is_input_fault(*e),
        r == FailureKind::Internal <==> !is_input_fault(*e),
{
    match e {
        RequestError::Image(ImageLoadError::TooLarge) => FailureKind::Internal,
        RequestError::Image(_) => FailureKind::InvalidArgument,
        _ => FailureKind::Internal,
    }
}

/// The image path of a request once its upload has ended: the assembled
/// bytes normalized to side `image_size`. Every failure here is an image
/// failure; an empty upload or bytes that are no image never yield a
/// tensor and are reported as an invalid argument.
pub fn image_input(upload: ImageAssembler, image_size: usize) -> (r: Result<ImagePlanes, RequestError>)
    requires
        0 < image_size <= u32::MAX,
    ensures
        match r {
            Ok(p) => load_image_result(upload@, image_size as nat, Ok(p)),
            Err(RequestError::Image(e)) => load_image_result(upload@, image_size as nat, Err(e)),
            Err(_) => false,
        },
        upload@.len() == 0 ==> r matches Err(RequestError::Image(ImageLoadError::Undecodable(_))),
        decoded_rgb8(upload@) is None ==> r matches Err(
            RequestError::Image(ImageLoadError::Undecodable(_)),
        ),
        upload@.len() == 0 || decoded_rgb8(upload@) is None ==> (r matches Err(e)
            && is_input_fault(e)),
{
    let bytes = upload.finish();
    match load_image(bytes.as_slice(), image_size) {
        Ok(p) => Ok(p),
        Err(e) => Err(RequestError::Image(e)),
    }
}

} // verus!
