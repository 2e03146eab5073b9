//! The animated image: a recording's frames laid out as a GIF byte stream
//! that plays in an endless loop, in two colors.

use vstd::prelude::*;
use crate::error::LifeError;

verus! {

/// A GIF stream under construction: the `gif` crate's encoder together
/// with the byte buffer that it writes into. Nothing inside it is visible
/// to the proofs; [`written`] names the bytes that the buffer holds.
#[verifier::external_body]
pub struct GifStream {
    encoder: gif::Encoder<Vec<u8>>,
}

/// The error of the `gif` crate's encoder, carried through as an opaque
/// value.
#[verifier::external_type_specification]
#[verifier::external_body]
pub struct ExEncodingError(gif::EncodingError);

/// The bytes that the encoder has written into the stream's buffer so far.
pub uninterp spec fn written(stream: GifStream) -> Seq<u8>;

/// The image data with which `gif::Encoder::write_frame` ends the block of
/// a frame of the given palette indices: the minimum code size, the
/// compressed indices in sub-blocks, and the terminator.
pub uninterp spec fn image_data(pixels: Seq<u8>) -> Seq<u8>;

/// A 16-bit number as it stands in the stream, least significant byte first.
pub open spec fn le_bytes(n: u16) -> Seq<u8> {
    seq![(n % 256) as u8, (n / 256) as u8]
}

/// The two colors of an animation: index 0, a dead cell, is black and
/// index 1, a live cell, is white.
pub open spec fn palette() -> Seq<u8> {
    seq![0u8, 0u8, 0u8, 0xFFu8, 0xFFu8, 0xFFu8]
}

/// Signature and logical screen descriptor of a stream with a global color
/// table of two entries.
pub open spec fn screen_header(width: u16, height: u16) -> Seq<u8> {
    seq![0x47u8, 0x49u8, 0x46u8, 0x38u8, 0x39u8, 0x61u8] + le_bytes(width) + le_bytes(height)
        + seq![0x80u8, 0u8, 0u8]
}

/// The application extension that asks a player to repeat the animation
/// without end.
pub open spec fn loop_block() -> Seq<u8> {
    seq![
        0x21u8, 0xFFu8, 0x0Bu8,
        0x4Eu8, 0x45u8, 0x54u8, 0x53u8, 0x43u8, 0x41u8, 0x50u8, 0x45u8, 0x32u8, 0x2Eu8, 0x30u8,
        0x03u8, 0x01u8, 0x00u8, 0x00u8, 0x00u8,
    ]
}

/// The byte that ends a stream.
pub const TRAILER: u8 = 0x3B;

/// The graphic control extension of a frame shown without delay, kept in
/// place when the next one is drawn, with no transparent color.
pub open spec fn control_block() -> Seq<u8> {
    seq![0x21u8, 0xF9u8, 0x04u8, 0x04u8, 0x00u8, 0x00u8, 0x00u8, 0x00u8]
}

/// The image descriptor of a frame of the given size at the upper left
/// corner, not interlaced, drawn in the colors of the global table.
pub open spec fn image_descriptor(width: u16, height: u16) -> Seq<u8> {
    seq![0x2Cu8, 0x00u8, 0x00u8, 0x00u8, 0x00u8] + le_bytes(width) + le_bytes(height)
        + seq![0x00u8]
}

/// The block of one frame: its control extension, its image descriptor and
/// its image data.
pub open spec fn frame_block(width: u16, height: u16, pixels: Seq<u8>) -> Seq<u8> {
    control_block() + image_descriptor(width, height) + image_data(pixels)
}

/// Whether every frame holds at least one palette index per pixel.
pub open spec fn frames_fit(width: u16, height: u16, frames: Seq<Seq<u8>>) -> bool {
    forall|i: int| 0 <= i < frames.len() ==> (#[trigger] frames[i]).len() >= width * height
}

/// The blocks of the first `n` frames, in order.
pub open spec fn frame_blocks(width: u16, height: u16, frames: Seq<Seq<u8>>, n: nat) -> Seq<u8>
    decreases n,
{
    if n == 0 {
        Seq::empty()
    } else {
        frame_blocks(width, height, frames, (n - 1) as nat) + frame_block(
            width,
            height,
            frames[n - 1],
        )
    }
}

/// The whole stream of an animation of the given frames.
pub open spec fn animation_bytes(width: u16, height: u16, frames: Seq<Seq<u8>>) -> Seq<u8> {
    (screen_header(width, height) + palette() + loop_block() + frame_blocks(
        width,
        height,
        frames,
        frames.len(),
    )).push(TRAILER)
}

/// `gif::Encoder::new` on an empty buffer. Given a color table of two
/// entries it succeeds, and the stream that it returns holds the
/// signature, the screen descriptor that announces such a table, and the
/// table itself.
#[verifier::external_body]
fn open_stream(width: u16, height: u16, colors: &Vec<u8>) -> (r: Result<
    GifStream,
    gif::EncodingError,
>)
    requires
        colors@.len() == 6,
    ensures
        r is Ok,
        r is Ok ==> written(r->Ok_0) == screen_header(width, height) + colors@,
{
    match gif::Encoder::new(Vec::new(), width, height, colors.as_slice()) {
        Ok(encoder) => Ok(GifStream { encoder }),
        Err(e) => Err(e),
    }
}

/// `gif::Encoder::set_repeat` with `Repeat::Infinite`. It succeeds, and
/// has then appended the looping extension and nothing else.
#[verifier::external_body]
fn repeat_forever(stream: &mut GifStream) -> (r: Result<(), gif::EncodingError>)
    ensures
        r is Ok,
        r is Ok ==> written(*final(stream)) == written(*old(stream)) + loop_block(),
{
    stream.encoder.set_repeat(gif::Repeat::Infinite)
}

/// `gif::Encoder::write_frame` on a default frame with the given size and
/// palette indices, on a stream that has a global color table, as every
/// stream made by [`open_stream`] has. It succeeds exactly when the buffer
/// holds at least one index per pixel, and has then appended the frame's
/// control extension, its image descriptor and its image data, and nothing
/// else. The one other failure in its source, a reservation of memory that
/// is not granted, is left aside: memory is taken to be there, as it is
/// for every allocation.
#[verifier::external_body]
fn write_frame(stream: &mut GifStream, width: u16, height: u16, pixels: &Vec<u8>) -> (r: Result<
    (),
    gif::EncodingError,
>)
    requires
        width > 0,
        height > 0,
    ensures
        r is Ok <==> pixels@.len() >= width * height,
        r is Ok ==> written(*final(stream)) == written(*old(stream)) + control_block()
            + image_descriptor(width, height) + image_data(pixels@),
{
    let mut frame = gif::Frame::default();
    frame.width = width;
    frame.height = height;
    frame.buffer = std::borrow::Cow::Borrowed(pixels.as_slice());
    stream.encoder.write_frame(&frame)
}

/// `gif::Encoder::into_inner`. It succeeds, and hands out the buffer,
/// which holds what had been written and then the trailer.
#[verifier::external_body]
fn finish(stream: GifStream) -> (r: Result<Vec<u8>, gif::EncodingError>)
    ensures
        r is Ok,
        r is Ok ==> r->Ok_0@ == written(stream).push(TRAILER),
{
    stream.encoder.into_inner().map_err(gif::EncodingError::from)
}

/// The two-color table handed to the encoder.
fn two_colors() -> (colors: Vec<u8>)
    ensures
        colors@ == palette(),
{
    let colors: Vec<u8> = vec![0u8, 0u8, 0u8, 0xFFu8, 0xFFu8, 0xFFu8];
    assert(colors@ =~= palette());
    colors
}

/// Encodes `frames`, each a buffer of palette indices in row-major order,
/// as one endlessly looping animation of `width` by `height` pixels.
///
/// A side of zero is refused with [`LifeError::InvalidDimensions`]. With
/// both sides positive the encoding succeeds exactly when every frame
/// holds at least one index per pixel, and the stream is then
/// [`animation_bytes`] of the frames; a frame that is too short is
/// reported as [`LifeError::IoFailure`].
pub fn encode_animation(width: u16, height: u16, frames: &Vec<Vec<u8>>) -> (r: Result<
    Vec<u8>,
    LifeError,
>)
    ensures
        width == 0 || height == 0 ==> r == Err::<Vec<u8>, LifeError>(
            LifeError::InvalidDimensions,
        ),
        width > 0 && height > 0 ==> (r is Ok <==> frames_fit(width, height, frames.deep_view())),
        width > 0 && height > 0 ==> match r {
            Ok(bytes) => bytes@ == animation_bytes(width, height, frames.deep_view()),
            Err(e) => e == LifeError::IoFailure,
        },
{
    if width == 0 || height == 0 {
        return Err(LifeError::InvalidDimensions);
    }
    let colors: Vec<u8> = two_colors();
    let mut stream = match open_stream(width, height, &colors) {
        Ok(stream) => stream,
        Err(_) => {
            return Err(LifeError::IoFailure);
        },
    };
    match repeat_forever(&mut stream) {
        Ok(()) => {},
        Err(_) => {
            return Err(LifeError::IoFailure);
        },
    }
    let ghost opening = screen_header(width, height) + palette() + loop_block();
    let mut i: usize = 0;
    while i < frames.len()
        invariant
            0 <= i <= frames.len(),
            width > 0,
            height > 0,
            opening == screen_header(width, height) + palette() + loop_block(),
            written(stream) == opening + frame_blocks(
                width,
                height,
                frames.deep_view(),
                i as nat,
            ),
            forall|k: int|
                0 <= k < i ==> (#[trigger] frames.deep_view()[k]).len() >= width * height,
        decreases frames.len() - i,
    {
        assert(frames.deep_view()[i as int] == frames[i as int]@);
        match write_frame(&mut stream, width, height, &frames[i]) {
            Ok(()) => {},
            Err(_) => {
                return Err(LifeError::IoFailure);
            },
        }
        proof {
            assert(opening + frame_blocks(width, height, frames.deep_view(), i as nat)
                + control_block() + image_descriptor(width, height) + image_data(
                frames[i as int]@,
            ) =~= opening + frame_blocks(width, height, frames.deep_view(), (i + 1) as nat));
        }
        i += 1;
    }
    assert(frames.deep_view().len() == frames.len());
    match finish(stream) {
        Ok(bytes) => Ok(bytes),
        Err(_) => Err(LifeError::IoFailure),
    }
}

} // verus!
