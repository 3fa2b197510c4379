//! The structural event source: a streaming GIF decoder that reports, for a
//! prefix of its input, how many bytes it took and what they were.

use gif::{Decoded, DecodingError, StreamingDecoder};
use vstd::prelude::*;

verus! {

/// `gif::StreamingDecoder`, held as it is: the proofs see nothing inside.
#[verifier::external_type_specification]
#[verifier::external_body]
pub struct ExStreamingDecoder(StreamingDecoder);

/// `gif::DecodingError`, held as it is until it is converted.
#[verifier::external_type_specification]
#[verifier::external_body]
pub struct ExDecodingError(DecodingError);

/// What the decoder reports about the bytes it has just taken.
#[derive(Clone, Copy, Debug, PartialEq, Eq, Structural)]
pub enum Event {
    /// Nothing that can be told apart yet.
    Nothing,
    /// The global colour table is complete.
    GlobalPalette,
    /// The background colour index of the logical screen.
    BackgroundColor,
    /// The end of the whole image.
    Trailer,
    /// A block begins.
    BlockStart,
    /// A sub-block of an extension is complete; more follow.
    SubBlockFinished,
    /// The last sub-block of an extension is complete.
    BlockFinished,
    /// The descriptor of the next frame is complete.
    Frame,
    /// Some image data of the current frame.
    Data,
    /// The image data of the current frame is complete.
    DataEnd,
}

/// What the buffer does with the bytes that came with an event.
#[derive(Clone, Copy, Debug, PartialEq, Eq, Structural)]
pub enum EventClass {
    /// The bytes wait until a later event tells what they belong to.
    Unclassified,
    /// The bytes lie inside a frame.
    FrameInterior,
    /// The bytes close a frame.
    FrameEnd,
    /// The bytes describe the stream as a whole and precede every frame.
    Metadata,
}

/// Why a write into the buffer failed.
#[derive(Debug)]
pub enum DecodeError {
    /// The input is not a well-formed image stream.
    Malformed(String),
    /// The decoder found itself in a state it should not reach.
    Internal(String),
    /// The decoder met an input/output failure.
    Io(String),
    /// The decoder kept reporting events without taking any input.
    Stalled,
    /// The stream would grow past what a 64-bit cursor can address.
    TooLong,
}

impl DecodeError {
    /// The error in words. Where the decoder gave a text, it is that text.
    pub fn message(&self) -> (text: String)
        ensures
            match self {
                DecodeError::Malformed(given) => text@ == given@,
                DecodeError::Internal(given) => text@ == given@,
                DecodeError::Io(given) => text@ == given@,
                DecodeError::Stalled => text@ == "the decoder reports events without taking input"@,
                DecodeError::TooLong => text@ == "the stream is too long for a 64-bit offset"@,
            },
    {
        match self {
            DecodeError::Malformed(given) => given.clone(),
            DecodeError::Internal(given) => given.clone(),
            DecodeError::Io(given) => given.clone(),
            DecodeError::Stalled => "the decoder reports events without taking input".to_owned(),
            DecodeError::TooLong => "the stream is too long for a 64-bit offset".to_owned(),
        }
    }
}

/// The class of each event: block and frame structure lies inside a frame,
/// the end of the image data closes it, an event that carries nothing leaves
/// its bytes unclassified, and everything else is stream metadata.
pub open spec fn class_of(event: Event) -> EventClass {
    match event {
        Event::Nothing => EventClass::Unclassified,
        Event::BlockStart | Event::SubBlockFinished | Event::BlockFinished | Event::Frame
        | Event::Data => EventClass::FrameInterior,
        Event::DataEnd => EventClass::FrameEnd,
        Event::GlobalPalette | Event::BackgroundColor | Event::Trailer => EventClass::Metadata,
    }
}

/// Computes the class of an event.
pub fn classify(event: Event) -> (class: EventClass)
    ensures
        class == class_of(event),
{
    match event {
        Event::Nothing => EventClass::Unclassified,
        Event::BlockStart => EventClass::FrameInterior,
        Event::SubBlockFinished => EventClass::FrameInterior,
        Event::BlockFinished => EventClass::FrameInterior,
        Event::Frame => EventClass::FrameInterior,
        Event::Data => EventClass::FrameInterior,
        Event::DataEnd => EventClass::FrameEnd,
        _ => EventClass::Metadata,
    }
}

/// `gif::StreamingDecoder::new`: a decoder that has seen no input.
#[verifier::external_body]
pub(crate) fn fresh_decoder() -> StreamingDecoder {
    StreamingDecoder::new()
}

/// `gif::StreamingDecoder::update`: the decoder takes a prefix of `buf` and
/// reports the last thing it decoded. Trusted: the count it returns is the
/// length of that prefix, so it never exceeds the length of `buf`. Which
/// event comes back depends on everything the decoder has seen before.
#[verifier::external_body]
pub(crate) fn decoder_update(decoder: &mut StreamingDecoder, buf: &[u8]) -> (outcome: Result<
    (usize, Event),
    DecodingError,
>)
    ensures
        outcome matches Ok((taken, _)) ==> taken <= buf@.len(),
{
    let (taken, decoded) = decoder.update(buf)?;
    Ok((taken, match decoded {
        Decoded::Nothing => Event::Nothing,
        Decoded::GlobalPalette(_) => Event::GlobalPalette,
        Decoded::BackgroundColor(_) => Event::BackgroundColor,
        Decoded::Trailer => Event::Trailer,
        Decoded::BlockStart(_) => Event::BlockStart,
        Decoded::SubBlockFinished(..) => Event::SubBlockFinished,
        Decoded::BlockFinished(..) => Event::BlockFinished,
        Decoded::Frame(_) => Event::Frame,
        Decoded::Data(_) => Event::Data,
        Decoded::DataEnd => Event::DataEnd,
    }))
}

/// Tells the variants of `gif::DecodingError` apart and keeps the text each
/// one carries. Trusted: the outside error has no variant that maps to
/// `Stalled` or `TooLong`.
#[verifier::external_body]
pub(crate) fn convert_error(error: DecodingError) -> (converted: DecodeError)
    ensures
        converted !is Stalled,
        converted !is TooLong,
{
    match error {
        DecodingError::Format(text) => DecodeError::Malformed(text.to_string()),
        DecodingError::Internal(text) => DecodeError::Internal(text.to_string()),
        DecodingError::Io(inner) => DecodeError::Io(inner.to_string()),
    }
}

} // verus!
