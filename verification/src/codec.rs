use vstd::prelude::*;
use image::ImageEncoder;
use crate::frame::{dims_valid, FrameData};
use crate::name::{frame_filename, frame_filename_spec};

verus! {

/// What the PNG encoder produces for a tightly packed RGBA buffer of
/// the given dimensions; the encoding depends on the buffer and the
/// dimensions alone.
pub uninterp spec fn png_bytes_of(pixels: Seq<u8>, width: u32, height: u32) -> Seq<u8>;

/// Relies on image's PngEncoder::write_image with Rgba8 pixels: it
/// writes the PNG encoding of the buffer, a function of the buffer
/// and dimensions alone, to the writer. It panics on a buffer whose
/// length is not exactly `width * height * 4` and fails on a zero
/// dimension, both ruled out here; with an in-memory writer no other
/// failure path remains, so it returns Ok.
#[verifier::external_body]
fn encode_rgba_png(pixels: Vec<u8>, width: u32, height: u32) -> (r: Option<Vec<u8>>)
    requires
        crate::frame::frame_dims_valid(pixels@.len() as nat, width, height),
    ensures
        r is Some,
        r matches Some(b) ==> b@ == png_bytes_of(pixels@, width, height),
{
    let mut out: Vec<u8> = Vec::new();
    let encoder = image::codecs::png::PngEncoder::new(&mut out);
    match encoder.write_image(pixels.as_slice(), width, height, image::ExtendedColorType::Rgba8) {
        Ok(()) => Some(out),
        Err(_) => None,
    }
}

/// The per-frame step of the encoding worker: derives the file name
/// from the frame's sequence index and encodes its pixels as PNG
/// bytes. A frame whose buffer does not match its dimensions yields
/// None and is skipped; it never stops the worker.
pub fn process_frame(frame: FrameData) -> (r: Option<(String, Vec<u8>)>)
    ensures
        frame.wf() ==> (r matches Some(p) && p.0@ == frame_filename_spec(frame.index) && p.1@
            == png_bytes_of(frame.pixels@, frame.width, frame.height)),
        !frame.wf() ==> r is None,
{
    if dims_valid(frame.pixels.len(), frame.width, frame.height) {
        let name = frame_filename(frame.index);
        match encode_rgba_png(frame.pixels, frame.width, frame.height) {
            Option::Some(bytes) => Option::Some((name, bytes)),
            Option::None => Option::None,
        }
    } else {
        Option::None
    }
}

} // verus!
