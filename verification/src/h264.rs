//! An H.264 stream: the stream controller together with the OpenH264 decoder
//! that its units are submitted to.

use crate::picture::{CodedAccessUnit, DecodeOutcome, DecodedPicture};
use crate::reorder::DEFAULT_CAPACITY;
use crate::stream::{Action, ControllerState, DecodedUnit, Event, Phase, StreamController};
use openh264::decoder::Decoder;
use openh264::formats::YUVSource;
use openh264::OpenH264API;
use vstd::prelude::*;

verus! {

#[verifier::external_type_specification]
#[verifier::external_body]
pub struct ExDecoder(openh264::decoder::Decoder);

#[verifier::external_type_specification]
#[verifier::external_body]
pub struct ExError(openh264::Error);

/// Why a stream could not be opened.
#[derive(Debug)]
pub enum StreamError {
    /// The decoder could not be set up.
    DecoderInit(openh264::Error),
}

/// Sets up a decoder with `Decoder::new`, on the OpenH264 build that comes
/// with the crate (`OpenH264API::from_source`). Nothing is claimed of the
/// outcome.
#[verifier::external_body]
fn new_decoder() -> (decoder: Result<Decoder, openh264::Error>) {
    Decoder::new(OpenH264API::from_source())
}

/// Submits one packet to `Decoder::decode` and, if a picture comes back,
/// copies its planes, strides and dimensions out of the decoder's memory.
/// Nothing is claimed of the result: it depends on every packet the decoder
/// has seen.
#[verifier::external_body]
fn decode_packet(decoder: &mut Decoder, packet: &[u8]) -> (decoded: Result<
    Option<DecodedPicture>,
    openh264::Error,
>) {
    decoder.decode(packet).map(|picture| {
        picture.map(|yuv| {
            let (strides, y_dim) = (yuv.strides_yuv(), yuv.dimension_y());
            let (u_dim, v_dim) = (yuv.dimension_u(), yuv.dimension_v());
            let (y, u, v) = (yuv.y().to_vec(), yuv.u().to_vec(), yuv.v().to_vec());
            DecodedPicture::from_planes(strides, y_dim, u_dim, v_dim, y, u, v)
        })
    })
}

/// What the decoder's answer means to the pipeline: a picture, no picture,
/// or, when the packet could not be decoded, a failure that the stream
/// outlives.
pub fn outcome_of(decoded: Result<Option<DecodedPicture>, openh264::Error>) -> (outcome:
    DecodeOutcome)
    ensures
        outcome == match decoded {
            Ok(Some(picture)) => DecodeOutcome::Picture(picture),
            Ok(None) => DecodeOutcome::NoPicture,
            Err(_) => DecodeOutcome::Failed,
        },
{
    match decoded {
        Ok(Some(picture)) => DecodeOutcome::Picture(picture),
        Ok(None) => DecodeOutcome::NoPicture,
        Err(_) => DecodeOutcome::Failed,
    }
}

/// Why a stream could not be opened, given why its decoder could not be set
/// up.
pub fn init_error(error: openh264::Error) -> (e: StreamError)
    ensures
        e == StreamError::DecoderInit(error),
{
    StreamError::DecoderInit(error)
}

/// A stream controller with its decoder.
pub struct H264Stream {
    controller: StreamController,
    decoder: Decoder,
}

impl H264Stream {
    pub closed spec fn spec_controller(&self) -> &StreamController {
        &self.controller
    }

    /// Opens a stream of the given dimensions with a reorder buffer of
    /// `capacity` slots. Fails when the decoder cannot be set up; there is
    /// no stream then.
    pub fn with_capacity(width: u32, height: u32, capacity: usize) -> (stream: Result<
        Self,
        StreamError,
    >)
        ensures
            stream matches Ok(s) ==> s.spec_controller().wf() && s.spec_controller()@
                == ControllerState::initial(width, height, capacity as nat),
    {
        H264Stream::from_decoder(width, height, capacity, new_decoder())
    }

    /// Opens a stream of the given dimensions with a reorder buffer of the
    /// default capacity.
    pub fn open(width: u32, height: u32) -> (stream: Result<Self, StreamError>)
        ensures
            stream matches Ok(s) ==> s.spec_controller().wf() && s.spec_controller()@
                == ControllerState::initial(width, height, DEFAULT_CAPACITY as nat),
    {
        H264Stream::with_capacity(width, height, DEFAULT_CAPACITY)
    }

    /// The decoder that the stream's units are submitted to.
    pub closed spec fn spec_decoder(&self) -> Decoder {
        self.decoder
    }

    /// What an attempt to set up the decoder leads to. With a decoder there
    /// is a stream that holds it, of the given dimensions and with a reorder
    /// buffer of `capacity` slots, before its first request. Without one
    /// there is no stream, and the decoder's error is the reason.
    pub fn from_decoder(
        width: u32,
        height: u32,
        capacity: usize,
        made: Result<Decoder, openh264::Error>,
    ) -> (stream: Result<Self, StreamError>)
        ensures
            match made {
                Ok(decoder) => {
                    &&& stream matches Ok(s) && s.spec_decoder() == decoder
                        && s.spec_controller().wf() && s.spec_controller()@
                        == ControllerState::initial(width, height, capacity as nat)
                },
                Err(error) => stream matches Err(e) && e == StreamError::DecoderInit(error),
            },
    {
        match made {
            Ok(decoder) => Ok(
                H264Stream {
                    controller: StreamController::with_capacity(width, height, capacity),
                    decoder,
                },
            ),
            Err(error) => Err(init_error(error)),
        }
    }

    /// The controller, for its dimensions, cursor and phase.
    #[verifier::when_used_as_spec(spec_controller)]
    pub fn controller(&self) -> (controller: &StreamController)
        ensures
            controller == self.spec_controller(),
    {
        &self.controller
    }

    /// Passes an event on to the controller.
    pub fn step(&mut self, event: Event) -> (action: Action)
        requires
            old(self).controller().wf(),
            old(self).controller().accepts(event),
        ensures
            final(self).controller().wf(),
            (final(self).controller()@, action) == old(self).controller()@.step(event),
            final(self).controller()@.awaits(action),
    {
        self.controller.step(event)
    }

    /// Submits a unit that the controller asked for to the decoder, and
    /// tells the controller what came of it. Whatever the decoder answers,
    /// the stream outlives it: a packet that cannot be decoded counts as a
    /// unit without a picture.
    pub fn feed(&mut self, unit: CodedAccessUnit) -> (action: Action)
        requires
            old(self).controller().wf(),
            old(self).controller()@.phase == Phase::Filling,
        ensures
            final(self).controller().wf(),
            final(self).controller()@.awaits(action),
            exists|outcome: DecodeOutcome|
                !(outcome is Fatal) && (final(self).controller()@, action) == #[trigger] old(
                    self,
                ).controller()@.decoded(DecodedUnit { unit, outcome }),
    {
        let outcome = outcome_of(decode_packet(&mut self.decoder, unit.payload().as_slice()));
        self.controller.step(Event::Decoded(DecodedUnit { unit, outcome }))
    }
}

} // verus!
