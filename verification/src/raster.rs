//! The raster the image crate decodes, carried with its dimensions, and the
//! aspect-fill scaling step that crops it to the chosen display geometry.
use vstd::prelude::*;

use crate::crop::{crop_rect, crop_spec, target_resolution, CropRect};
use crate::display::DisplayInfo;
use crate::resolution::parse_spec;
use crate::Error;

verus! {

#[verifier::external_type_specification]
#[verifier::external_body]
pub struct ExDynamicImage(image::DynamicImage);

/// The dimensions of the image that `image::load_from_memory` decodes from
/// the given bytes, or nothing when decoding fails. Decoding is a function
/// of the bytes alone.
pub uninterp spec fn decoded_dims(bytes: Seq<u8>) -> Option<(u32, u32)>;

/// A decoded raster with its dimensions. The private fields are filled only
/// by the trusted wrappers below, which keep `width` and `height` equal to
/// the held image's dimensions.
#[derive(Debug)]
pub struct Raster {
    img: image::DynamicImage,
    width: u32,
    height: u32,
}

impl Raster {
    /// The width in pixels.
    pub closed spec fn spec_width(&self) -> u32 {
        self.width
    }

    /// The height in pixels.
    pub closed spec fn spec_height(&self) -> u32 {
        self.height
    }

    /// The width in pixels.
    pub fn width(&self) -> (r: u32)
        ensures
            r == self.spec_width(),
    {
        self.width
    }

    /// The height in pixels.
    pub fn height(&self) -> (r: u32)
        ensures
            r == self.spec_height(),
    {
        self.height
    }

    /// Hands the held image out for encoding and saving.
    pub fn into_image(self) -> image::DynamicImage {
        self.img
    }
}

/// Relies on `image::load_from_memory`: decoding is deterministic in the
/// bytes, and the stored dimensions are read off the decoded image.
#[verifier::external_body]
fn decode_image(data: &Vec<u8>) -> (r: Option<Raster>)
    ensures
        r is Some <==> decoded_dims(data@) is Some,
        r is Some ==> Some((r->Some_0.spec_width(), r->Some_0.spec_height())) == decoded_dims(
            data@,
        ),
{
    match image::load_from_memory(data) {
        Ok(img) => {
            let width = img.width();
            let height = img.height();
            Some(Raster { img, width, height })
        },
        Err(_) => None,
    }
}

/// Relies on `image::DynamicImage::crop_imm`: a rectangle that lies inside
/// the image is cut out with exactly its own dimensions.
#[verifier::external_body]
fn crop_image(r: &Raster, rect: CropRect) -> (out: Raster)
    requires
        rect.x + rect.width <= r.spec_width(),
        rect.y + rect.height <= r.spec_height(),
    ensures
        out.spec_width() == rect.width,
        out.spec_height() == rect.height,
{
    let img = r.img.crop_imm(rect.x, rect.y, rect.width, rect.height);
    let width = img.width();
    let height = img.height();
    Raster { img, width, height }
}

/// Decodes the image bytes and crops them, centered, to the aspect ratio of
/// the chosen display geometry: the combined desktop when spanning, else the
/// largest single monitor. Nothing is scaled: a source smaller than the
/// target is cropped, never upscaled.
pub fn scale_image(image_data: Vec<u8>, span: bool, display_info: &DisplayInfo) -> (r: Result<
    Raster,
    Error,
>)
    ensures
        match r {
            Ok(img) => ({
                let dims = decoded_dims(image_data@);
                let target = if span {
                    parse_spec(display_info.total_resolution@)
                } else {
                    parse_spec(display_info.max_single_resolution@)
                };
                &&& dims is Some
                &&& target is Some
                &&& ({
                    let rect = crop_spec(
                        dims->Some_0.0 as int,
                        dims->Some_0.1 as int,
                        target->Some_0.width as int,
                        target->Some_0.height as int,
                    );
                    img.spec_width() == rect.width && img.spec_height() == rect.height
                })
            }),
            Err(e) => ({
                let target = if span {
                    parse_spec(display_info.total_resolution@)
                } else {
                    parse_spec(display_info.max_single_resolution@)
                };
                &&& (e == Error::Decode <==> decoded_dims(image_data@) is None)
                &&& (e == Error::Format <==> decoded_dims(image_data@) is Some && target is None)
                &&& (e == Error::Decode || e == Error::Format)
            }),
        },
{
    let img = match decode_image(&image_data) {
        Some(img) => img,
        None => {
            return Err(Error::Decode);
        },
    };
    let target = match target_resolution(span, display_info) {
        Ok(t) => t,
        Err(e) => {
            return Err(e);
        },
    };
    let rect = crop_rect(img.width(), img.height(), target);
    Ok(crop_image(&img, rect))
}

} // verus!
