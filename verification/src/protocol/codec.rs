//! Length-delimited frames.

use bytes::Buf;
use bytes::BufMut;
use bytes::BytesMut;
use vstd::prelude::*;
use vstd::string::*;

use crate::protocol::message::{Envelope, MessageValidationError};
use crate::text::push_decimal;

verus! {

const LENGTH_PREFIX_BYTES: usize = 4;

pub const DEFAULT_MAX_FRAME_BYTES: usize = 1024 * 1024;

pub const HARD_MAX_FRAME_BYTES: usize = 16 * 1024 * 1024;

#[verifier::external_type_specification]
#[verifier::external_body]
pub struct ExBytesMut(bytes::BytesMut);

/// The bytes that a buffer holds.
pub uninterp spec fn buffered(buffer: BytesMut) -> Seq<u8>;

/// Four bytes as an integer, the highest byte first.
pub open spec fn big_endian(bytes: Seq<u8>) -> int {
    bytes[0] * 0x100_0000 + bytes[1] * 0x1_0000 + bytes[2] * 0x100 + bytes[3]
}

/// An integer as four bytes, the highest first.
pub open spec fn big_endian_bytes(value: u32) -> Seq<u8> {
    seq![
        (value / 0x100_0000) as u8,
        (value / 0x1_0000 % 0x100) as u8,
        (value / 0x100 % 0x100) as u8,
        (value % 0x100) as u8,
    ]
}

/// `bytes::BytesMut::with_capacity`: an empty buffer. The bound keeps the
/// allocation within what a vector may ask for on every target.
#[verifier::external_body]
fn buffer_with_capacity(capacity: usize) -> (buffer: BytesMut)
    requires
        capacity <= 0x7fff_ffff,
    ensures
        buffered(buffer) == Seq::<u8>::empty(),
{
    BytesMut::with_capacity(capacity)
}

/// `bytes::BufMut::put_u32`: appends the four bytes of an integer, the highest
/// first. The bound keeps the buffer within what it may grow to.
#[verifier::external_body]
fn buffer_put_u32(buffer: &mut BytesMut, value: u32)
    requires
        buffered(*old(buffer)).len() + 4 <= 0x7fff_ffff,
    ensures
        buffered(*final(buffer)) == buffered(*old(buffer)) + big_endian_bytes(value),
{
    buffer.put_u32(value)
}

/// `bytes::BytesMut::extend_from_slice`: appends bytes. The bound keeps the
/// buffer within what it may grow to.
#[verifier::external_body]
fn buffer_extend(buffer: &mut BytesMut, bytes: &[u8])
    requires
        buffered(*old(buffer)).len() + bytes@.len() <= 0x7fff_ffff,
    ensures
        buffered(*final(buffer)) == buffered(*old(buffer)) + bytes@,
{
    buffer.extend_from_slice(bytes)
}

/// `bytes::Buf::chunk`: the bytes that the buffer holds.
#[verifier::external_body]
fn buffer_bytes(buffer: &BytesMut) -> (bytes: &[u8])
    ensures
        bytes@ == buffered(*buffer),
{
    buffer.chunk()
}

/// `bytes::Buf::advance`: drops bytes from the front.
#[verifier::external_body]
fn buffer_advance(buffer: &mut BytesMut, count: usize)
    requires
        count <= buffered(*old(buffer)).len(),
    ensures
        buffered(*final(buffer)) == buffered(*old(buffer)).skip(count as int),
{
    buffer.advance(count)
}

/// `bytes::BytesMut::split_to`: takes bytes from the front.
#[verifier::external_body]
fn buffer_split_to(buffer: &mut BytesMut, count: usize) -> (front: BytesMut)
    requires
        count <= buffered(*old(buffer)).len(),
    ensures
        buffered(front) == buffered(*old(buffer)).take(count as int),
        buffered(*final(buffer)) == buffered(*old(buffer)).skip(count as int),
{
    buffer.split_to(count)
}

/// The frame of a payload: its length in four bytes, then the payload.
pub open spec fn framed(payload: Seq<u8>) -> Seq<u8> {
    big_endian_bytes(payload.len() as u32) + payload
}

/// What stands at the front of received bytes.
pub ghost enum FrameStep {
    /// The frame is not complete yet.
    Incomplete,
    /// The frame declares a payload over the limit.
    TooLarge { length: int },
    /// A complete frame, and the bytes behind it.
    Complete { payload: Seq<u8>, rest: Seq<u8> },
}

/// Reads the front of received bytes, where payloads may have up to `maximum`
/// bytes.
pub open spec fn next_frame(received: Seq<u8>, maximum: int) -> FrameStep {
    if received.len() < 4 {
        FrameStep::Incomplete
    } else {
        let length = big_endian(received);
        if length > maximum {
            FrameStep::TooLarge { length }
        } else if received.len() < 4 + length {
            FrameStep::Incomplete
        } else {
            FrameStep::Complete {
                payload: received.subrange(4, 4 + length),
                rest: received.skip(4 + length),
            }
        }
    }
}

/// What comes of a message that was written down, where payloads may have up to
/// `maximum` bytes.
pub open spec fn framed_message(serialized: Result<Vec<u8>, String>, maximum: usize) -> Result<
    Seq<u8>,
    CodecError,
> {
    match serialized {
        Err(reason) => Err(CodecError::Serialize(reason)),
        Ok(payload) => if payload@.len() > maximum {
            Err(CodecError::FrameTooLarge { actual: payload@.len() as usize, maximum })
        } else {
            Ok(framed(payload@))
        },
    }
}

pub open spec fn frame_outcome(result: Result<BytesMut, CodecError>) -> Result<
    Seq<u8>,
    CodecError,
> {
    match result {
        Ok(frame) => Ok(buffered(frame)),
        Err(error) => Err(error),
    }
}

/// What comes of what was read from a payload: a message that is acceptable, or
/// why there is none.
pub open spec fn accepted(parsed: Result<Envelope, String>) -> Result<Envelope, CodecError> {
    match parsed {
        Err(reason) => Err(CodecError::Deserialize(reason)),
        Ok(message) => match crate::protocol::message::envelope_fault(message) {
            Some(error) => Err(CodecError::InvalidMessage(error)),
            None => Ok(message),
        },
    }
}

/// A length-delimited codec whose payload is one serialized [`Envelope`].
#[derive(Clone, Copy, Debug)]
pub struct FrameCodec {
    maximum_frame_bytes: usize,
}

impl View for FrameCodec {
    type V = usize;

    closed spec fn view(&self) -> usize {
        self.maximum_frame_bytes
    }
}

impl FrameCodec {
    #[verifier::type_invariant]
    closed spec fn has_valid_maximum(self) -> bool {
        0 < self.maximum_frame_bytes <= HARD_MAX_FRAME_BYTES
    }

    /// A codec for payloads of up to `maximum_frame_bytes` bytes.
    pub fn new(maximum_frame_bytes: usize) -> (result: Result<FrameCodec, CodecError>)
        ensures
            match result {
                Ok(codec) => 0 < maximum_frame_bytes <= HARD_MAX_FRAME_BYTES && codec@
                    == maximum_frame_bytes,
                Err(error) => !(0 < maximum_frame_bytes <= HARD_MAX_FRAME_BYTES) && error
                    == (CodecError::InvalidMaximum {
                    requested: maximum_frame_bytes,
                    hard_maximum: HARD_MAX_FRAME_BYTES,
                }),
            },
    {
        if maximum_frame_bytes == 0 || maximum_frame_bytes > HARD_MAX_FRAME_BYTES {
            return Err(
                CodecError::InvalidMaximum {
                    requested: maximum_frame_bytes,
                    hard_maximum: HARD_MAX_FRAME_BYTES,
                },
            );
        }
        Ok(FrameCodec { maximum_frame_bytes })
    }

    /// Frames a message, if it is acceptable. `serialize` writes it down.
    pub fn encode<S: Fn(&Envelope) -> Result<Vec<u8>, String>>(
        &self,
        message: &Envelope,
        serialize: S,
    ) -> (result: Result<BytesMut, CodecError>)
        requires
            forall|given: &Envelope| #[trigger] serialize.requires((given,)),
        ensures
            match crate::protocol::message::envelope_fault(*message) {
                Some(error) => result == Err::<BytesMut, CodecError>(
                    CodecError::InvalidMessage(error),
                ),
                None => exists|serialized: Result<Vec<u8>, String>| #[trigger]
                    serialize.ensures((message,), serialized) && frame_outcome(result)
                        == framed_message(serialized, self@),
            },
    {
        match message.validate() {
            Ok(()) => {},
            Err(error) => {
                return Err(CodecError::InvalidMessage(error));
            },
        }
        let serialized = serialize(message);
        self.frame(serialized)
    }

    /// The frame of a message that was written down, or why it could not be.
    pub fn frame(&self, serialized: Result<Vec<u8>, String>) -> (result: Result<
        BytesMut,
        CodecError,
    >)
        ensures
            frame_outcome(result) == framed_message(serialized, self@),
    {
        proof {
            use_type_invariant(self);
        }
        let content = match serialized {
            Ok(content) => content,
            Err(reason) => {
                return Err(CodecError::Serialize(reason));
            },
        };
        let payload = content.as_slice();
        match self.validate_frame_length(payload.len()) {
            Ok(()) => {},
            Err(error) => {
                return Err(error);
            },
        }
        let mut frame = buffer_with_capacity(LENGTH_PREFIX_BYTES + payload.len());
        buffer_put_u32(&mut frame, payload.len() as u32);
        buffer_extend(&mut frame, payload);
        assert(buffered(frame) =~= framed(payload@));
        Ok(frame)
    }

    /// Takes the next message from the front of what was received, once its frame
    /// is complete. `parse` reads the payload of the frame. What is read is
    /// checked, so a message that is given out is acceptable.
    pub fn decode<P: Fn(&[u8]) -> Result<Envelope, String>>(
        &self,
        source: &mut BytesMut,
        parse: P,
    ) -> (result: Result<Option<Envelope>, CodecError>)
        requires
            forall|content: &[u8]| #[trigger] parse.requires((content,)),
        ensures
            match next_frame(buffered(*old(source)), self@ as int) {
                FrameStep::Incomplete => result == Ok::<Option<Envelope>, CodecError>(None)
                    && buffered(*final(source)) == buffered(*old(source)),
                FrameStep::TooLarge { length } => result == Err::<Option<Envelope>, CodecError>(
                    CodecError::FrameTooLarge { actual: length as usize, maximum: self@ },
                ) && buffered(*final(source)) == buffered(*old(source)),
                FrameStep::Complete { payload, rest } => {
                    &&& buffered(*final(source)) == rest
                    &&& exists|content: &[u8], parsed: Result<Envelope, String>|
                        content@ == payload && #[trigger] parse.ensures((content,), parsed)
                            && result == match accepted(parsed) {
                            Ok(message) => Ok::<Option<Envelope>, CodecError>(Some(message)),
                            Err(error) => Err(error),
                        }
                },
            },
            result matches Ok(Some(message)) ==> crate::protocol::message::envelope_fault(
                message,
            ) is None,
    {
        let payload = match self.take_payload(source) {
            Ok(Some(payload)) => payload,
            Ok(None) => {
                return Ok(None);
            },
            Err(error) => {
                return Err(error);
            },
        };
        let parsed = parse(buffer_bytes(&payload));
        match accept(parsed) {
            Ok(message) => Ok(Some(message)),
            Err(error) => Err(error),
        }
    }

    /// Takes the payload of the next frame from the front of what was received,
    /// once it is complete.
    pub fn take_payload(&self, source: &mut BytesMut) -> (result: Result<
        Option<BytesMut>,
        CodecError,
    >)
        ensures
            match next_frame(buffered(*old(source)), self@ as int) {
                FrameStep::Incomplete => result == Ok::<Option<BytesMut>, CodecError>(None)
                    && buffered(*final(source)) == buffered(*old(source)),
                FrameStep::TooLarge { length } => result == Err::<Option<BytesMut>, CodecError>(
                    CodecError::FrameTooLarge { actual: length as usize, maximum: self@ },
                ) && buffered(*final(source)) == buffered(*old(source)),
                FrameStep::Complete { payload, rest } => (result matches Ok(Some(taken))
                    && buffered(taken) == payload) && buffered(*final(source)) == rest,
            },
    {
        proof {
            use_type_invariant(self);
        }
        let ghost received = buffered(*source);
        let bytes = buffer_bytes(source);
        let available: usize = bytes.len();
        if available < LENGTH_PREFIX_BYTES {
            return Ok(None);
        }
        let payload_length: usize = bytes[0] as usize * 0x100_0000 + bytes[1] as usize * 0x1_0000
            + bytes[2] as usize * 0x100 + bytes[3] as usize;
        match self.validate_frame_length(payload_length) {
            Ok(()) => {},
            Err(error) => {
                return Err(error);
            },
        }
        if available < LENGTH_PREFIX_BYTES + payload_length {
            return Ok(None);
        }
        buffer_advance(source, LENGTH_PREFIX_BYTES);
        let payload = buffer_split_to(source, payload_length);
        proof {
            assert(buffered(payload) =~= received.subrange(4, 4 + payload_length));
            assert(buffered(*source) =~= received.skip(4 + payload_length));
        }
        Ok(Some(payload))
    }

    fn validate_frame_length(&self, actual: usize) -> (result: Result<(), CodecError>)
        ensures
            result == if actual > self@ {
                Err::<(), CodecError>(CodecError::FrameTooLarge { actual, maximum: self@ })
            } else {
                Ok(())
            },
    {
        if actual > self.maximum_frame_bytes {
            return Err(CodecError::FrameTooLarge { actual, maximum: self.maximum_frame_bytes });
        }
        Ok(())
    }
}

impl Default for FrameCodec {
    fn default() -> (codec: FrameCodec)
        ensures
            codec@ == DEFAULT_MAX_FRAME_BYTES,
    {
        FrameCodec { maximum_frame_bytes: DEFAULT_MAX_FRAME_BYTES }
    }
}

/// The message that was read from a payload, if it could be read and is
/// acceptable.
pub fn accept(parsed: Result<Envelope, String>) -> (result: Result<Envelope, CodecError>)
    ensures
        result == accepted(parsed),
{
    let message = match parsed {
        Ok(message) => message,
        Err(reason) => {
            return Err(CodecError::Deserialize(reason));
        },
    };
    match message.validate() {
        Ok(()) => Ok(message),
        Err(error) => Err(CodecError::InvalidMessage(error)),
    }
}

/// Why a frame cannot be written or read.
#[derive(Debug, PartialEq, Eq)]
pub enum CodecError {
    InvalidMaximum { requested: usize, hard_maximum: usize },
    FrameTooLarge { actual: usize, maximum: usize },
    Serialize(String),
    Deserialize(String),
    InvalidMessage(MessageValidationError),
}

/// The length of a frame is read as it was written.
pub proof fn law_length_prefix_round_trips(value: u32)
    ensures
        big_endian(big_endian_bytes(value)) == value,
        big_endian_bytes(value).len() == 4,
{
}

/// What was framed is read back, whatever was received behind it.
pub proof fn law_frames_round_trip(payload: Seq<u8>, behind: Seq<u8>, maximum: int)
    requires
        payload.len() <= maximum <= HARD_MAX_FRAME_BYTES,
    ensures
        next_frame(framed(payload) + behind, maximum) == (FrameStep::Complete {
            payload,
            rest: behind,
        }),
{
    let received = framed(payload) + behind;
    law_length_prefix_round_trips(payload.len() as u32);
    assert(big_endian(received) == payload.len());
    assert(received.subrange(4, 4 + payload.len() as int) =~= payload);
    assert(received.skip(4 + payload.len() as int) =~= behind);
}

/// A message that may be sent comes back from its frame, whatever was received
/// behind it, where its payload reads as the message.
pub proof fn law_messages_come_back(
    message: Envelope,
    serialized: Vec<u8>,
    behind: Seq<u8>,
    maximum: usize,
)
    requires
        crate::protocol::message::envelope_fault(message) is None,
        serialized@.len() <= maximum <= HARD_MAX_FRAME_BYTES,
    ensures
        framed_message(Ok(serialized), maximum) matches Ok(frame) && next_frame(
            frame + behind,
            maximum as int,
        ) == (FrameStep::Complete { payload: serialized@, rest: behind }),
        accepted(Ok(message)) == Ok::<Envelope, CodecError>(message),
{
    law_frames_round_trip(serialized@, behind, maximum as int);
}

/// Until the last byte of a frame has arrived, nothing is taken.
pub proof fn law_partial_frames_wait(payload: Seq<u8>, arrived: int, maximum: int)
    requires
        payload.len() <= maximum <= HARD_MAX_FRAME_BYTES,
        0 <= arrived < framed(payload).len(),
    ensures
        next_frame(framed(payload).take(arrived), maximum) is Incomplete,
{
    if arrived >= 4 {
        law_length_prefix_round_trips(payload.len() as u32);
        assert(big_endian(framed(payload).take(arrived)) == payload.len());
    }
}

impl CodecError {
    /// The error in words.
    pub open spec fn text(self) -> Seq<char> {
        match self {
            CodecError::InvalidMaximum { requested, hard_maximum } => {
                "maximum frame length "@ + crate::text::decimal(requested as nat)
                    + " is outside 1..="@ + crate::text::decimal(hard_maximum as nat)
            },
            CodecError::FrameTooLarge { actual, maximum } => {
                "frame is "@ + crate::text::decimal(actual as nat)
                    + " bytes; the configured maximum is "@ + crate::text::decimal(maximum as nat)
            },
            CodecError::Serialize(reason) => "could not serialize protocol message: "@ + reason@,
            CodecError::Deserialize(reason) => {
                "could not deserialize protocol message: "@ + reason@
            },
            CodecError::InvalidMessage(error) => error.text(),
        }
    }

    /// The error in words.
    pub fn message(&self) -> (message: String)
        ensures
            message@ == self.text(),
    {
        let mut message = String::new();
        match self {
            CodecError::InvalidMaximum { requested, hard_maximum } => {
                message.append("maximum frame length ");
                push_decimal(&mut message, *requested as u64);
                message.append(" is outside 1..=");
                push_decimal(&mut message, *hard_maximum as u64);
            },
            CodecError::FrameTooLarge { actual, maximum } => {
                message.append("frame is ");
                push_decimal(&mut message, *actual as u64);
                message.append(" bytes; the configured maximum is ");
                push_decimal(&mut message, *maximum as u64);
            },
            CodecError::Serialize(reason) => {
                message.append("could not serialize protocol message: ");
                message.append(reason.as_str());
            },
            CodecError::Deserialize(reason) => {
                message.append("could not deserialize protocol message: ");
                message.append(reason.as_str());
            },
            CodecError::InvalidMessage(error) => {
                message.append(error.message().as_str());
            },
        }
        assert(message@ =~= self.text());
        message
    }
}

} // verus!
