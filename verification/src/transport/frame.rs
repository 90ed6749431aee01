//! Frames on a stream, around what is read from it and written to it.

use bytes::BytesMut;
use vstd::prelude::*;
use vstd::string::*;

use crate::protocol::codec::{CodecError, FrameCodec};
use crate::protocol::message::Envelope;
use crate::text::push_decimal;

verus! {

/// Why a frame cannot be sent or received.
#[derive(Debug, PartialEq, Eq)]
pub enum FrameError {
    Codec(CodecError),
    FrameTooLarge { actual: usize, maximum: usize },
    IncompleteFrame,
}

/// Checks the length that a frame declares, before any memory is set aside for
/// it.
pub fn check_declared_length(declared: u32, maximum: usize) -> (result: Result<usize, FrameError>)
    ensures
        result == if declared > maximum {
            Err::<usize, FrameError>(
                FrameError::FrameTooLarge { actual: declared as usize, maximum },
            )
        } else {
            Ok(declared as usize)
        },
{
    let actual: usize = declared as usize;
    if actual > maximum {
        return Err(FrameError::FrameTooLarge { actual, maximum });
    }
    Ok(actual)
}

/// The length to declare for a payload of the clipboard stream.
pub fn bulk_length(payload: &[u8], maximum: usize) -> (result: Result<u32, FrameError>)
    ensures
        result == if payload@.len() > maximum || payload@.len() > u32::MAX {
            Err::<u32, FrameError>(
                FrameError::FrameTooLarge { actual: payload@.len() as usize, maximum },
            )
        } else {
            Ok(payload@.len() as u32)
        },
{
    let actual: usize = payload.len();
    if actual > maximum || actual > u32::MAX as usize {
        return Err(FrameError::FrameTooLarge { actual, maximum });
    }
    Ok(actual as u32)
}

/// What framing comes to, as an error of the stream.
pub open spec fn stream_outcome(result: Result<BytesMut, FrameError>) -> Result<
    Seq<u8>,
    FrameError,
> {
    match result {
        Ok(frame) => Ok(crate::protocol::codec::buffered(frame)),
        Err(error) => Err(error),
    }
}

/// The frame to write for a control message. `serialize` writes the message down.
pub fn control_frame<S: Fn(&Envelope) -> Result<Vec<u8>, String>>(
    message: &Envelope,
    maximum: usize,
    serialize: S,
) -> (result: Result<BytesMut, FrameError>)
    requires
        forall|given: &Envelope| #[trigger] serialize.requires((given,)),
    ensures
        if !(0 < maximum <= crate::protocol::codec::HARD_MAX_FRAME_BYTES) {
            result == Err::<BytesMut, FrameError>(
                FrameError::Codec(
                    CodecError::InvalidMaximum {
                        requested: maximum,
                        hard_maximum: crate::protocol::codec::HARD_MAX_FRAME_BYTES,
                    },
                ),
            )
        } else {
            match crate::protocol::message::envelope_fault(*message) {
                Some(error) => result == Err::<BytesMut, FrameError>(
                    FrameError::Codec(CodecError::InvalidMessage(error)),
                ),
                None => exists|serialized: Result<Vec<u8>, String>| #[trigger]
                    serialize.ensures((message,), serialized) && stream_outcome(result)
                        == match crate::protocol::codec::framed_message(serialized, maximum) {
                        Ok(frame) => Ok::<Seq<u8>, FrameError>(frame),
                        Err(error) => Err(FrameError::Codec(error)),
                    },
            }
        },
{
    let codec = match FrameCodec::new(maximum) {
        Ok(codec) => codec,
        Err(error) => {
            return Err(FrameError::Codec(error));
        },
    };
    match codec.encode(message, serialize) {
        Ok(frame) => Ok(frame),
        Err(error) => Err(FrameError::Codec(error)),
    }
}

/// The message of a control frame, once all that was received of it has been put
/// together again. `parse` reads the payload of the frame. What is read is
/// checked, so a message that is given out is acceptable; what was received is
/// kept where no frame is taken from it.
pub fn control_message<P: Fn(&[u8]) -> Result<Envelope, String>>(
    received: &mut BytesMut,
    maximum: usize,
    parse: P,
) -> (result: Result<Envelope, FrameError>)
    requires
        forall|content: &[u8]| #[trigger] parse.requires((content,)),
    ensures
        if !(0 < maximum <= crate::protocol::codec::HARD_MAX_FRAME_BYTES) {
            &&& result == Err::<Envelope, FrameError>(
                FrameError::Codec(
                    CodecError::InvalidMaximum {
                        requested: maximum,
                        hard_maximum: crate::protocol::codec::HARD_MAX_FRAME_BYTES,
                    },
                ),
            )
            &&& crate::protocol::codec::buffered(*final(received))
                == crate::protocol::codec::buffered(*old(received))
        } else {
            match crate::protocol::codec::next_frame(
                crate::protocol::codec::buffered(*old(received)),
                maximum as int,
            ) {
                crate::protocol::codec::FrameStep::Incomplete => {
                    &&& result == Err::<Envelope, FrameError>(FrameError::IncompleteFrame)
                    &&& crate::protocol::codec::buffered(*final(received))
                        == crate::protocol::codec::buffered(*old(received))
                },
                crate::protocol::codec::FrameStep::TooLarge { length } => {
                    &&& result == Err::<Envelope, FrameError>(
                        FrameError::Codec(
                            CodecError::FrameTooLarge { actual: length as usize, maximum },
                        ),
                    )
                    &&& crate::protocol::codec::buffered(*final(received))
                        == crate::protocol::codec::buffered(*old(received))
                },
                crate::protocol::codec::FrameStep::Complete { payload, rest } => {
                    &&& crate::protocol::codec::buffered(*final(received)) == rest
                    &&& exists|content: &[u8], parsed: Result<Envelope, String>|
                        content@ == payload && #[trigger] parse.ensures((content,), parsed)
                            && result == match crate::protocol::codec::accepted(parsed) {
                            Ok(message) => Ok::<Envelope, FrameError>(message),
                            Err(error) => Err(FrameError::Codec(error)),
                        }
                },
            }
        },
        result matches Ok(message) ==> crate::protocol::message::envelope_fault(message) is None,
{
    let codec = match FrameCodec::new(maximum) {
        Ok(codec) => codec,
        Err(error) => {
            return Err(FrameError::Codec(error));
        },
    };
    match codec.decode(received, parse) {
        Ok(Some(message)) => Ok(message),
        Ok(None) => Err(FrameError::IncompleteFrame),
        Err(error) => Err(FrameError::Codec(error)),
    }
}

impl FrameError {
    /// The error in words.
    pub open spec fn text(self) -> Seq<char> {
        match self {
            FrameError::Codec(error) => error.text(),
            FrameError::FrameTooLarge { actual, maximum } => {
                "frame is "@ + crate::text::decimal(actual as nat)
                    + " bytes; the configured maximum is "@ + crate::text::decimal(maximum as nat)
            },
            FrameError::IncompleteFrame => "framing completed without a message"@,
        }
    }

    /// The error in words.
    pub fn message(&self) -> (message: String)
        ensures
            message@ == self.text(),
    {
        let mut message = String::new();
        match self {
            FrameError::Codec(error) => {
                message.append(error.message().as_str());
            },
            FrameError::FrameTooLarge { actual, maximum } => {
                message.append("frame is ");
                push_decimal(&mut message, *actual as u64);
                message.append(" bytes; the configured maximum is ");
                push_decimal(&mut message, *maximum as u64);
            },
            FrameError::IncompleteFrame => message.append("framing completed without a message"),
        }
        assert(message@ =~= self.text());
        message
    }
}

} // verus!
