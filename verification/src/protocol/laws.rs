//! What the wire contract promises.

use vstd::prelude::*;

use crate::protocol::clipboard::{ClipboardControl, ClipboardError};
use crate::protocol::codec::FrameStep;
use crate::protocol::message::{
    Capabilities, Envelope, MessageValidationError, ProtocolVersion, Session,
};

verus! {

/// Both sides speak version 1.3 or do not speak at all.
pub proof fn law_there_is_one_version(version: ProtocolVersion)
    ensures
        version.is_current_version() <==> version.major == 1 && version.minor == 3,
{
}

/// A negotiated capability is one that both sides have.
pub proof fn law_negotiated_capabilities_are_common(a: Capabilities, b: Capabilities)
    ensures
        a.shared_with(b).keyboard <==> a.keyboard && b.keyboard,
        a.shared_with(b).relative_pointer <==> a.relative_pointer && b.relative_pointer,
        a.shared_with(b).absolute_pointer <==> a.absolute_pointer && b.absolute_pointer,
        a.shared_with(b).clipboard_text <==> a.clipboard_text && b.clipboard_text,
{
}

/// Batches hold 1 to 512 events and offers announce at most a mebibyte; nothing
/// else about a message is refused.
pub proof fn law_acceptable_messages_are_bounded(message: Envelope)
    ensures
        match message {
            Envelope::Session(Session::Input(batch)) => {
                &&& crate::protocol::message::envelope_fault(message) is None <==> 1
                    <= batch.events@.len() <= 512
                &&& batch.events@.len() == 0 ==> crate::protocol::message::envelope_fault(message)
                    == Some(MessageValidationError::EmptyInputBatch)
                &&& batch.events@.len() > 512 ==> crate::protocol::message::envelope_fault(message)
                    == Some(
                    MessageValidationError::TooManyInputEvents {
                        actual: batch.events@.len() as usize,
                        maximum: 512,
                    },
                )
            },
            Envelope::Session(Session::Clipboard(ClipboardControl::Offered(offer))) => {
                &&& offer@.text_bytes <= 0x10_0000 <==> crate::protocol::message::envelope_fault(
                    message,
                ) is None
                &&& offer@.text_bytes > 0x10_0000 ==> crate::protocol::message::envelope_fault(
                    message,
                ) == Some(
                    MessageValidationError::InvalidClipboard(
                        ClipboardError::TextTooLarge {
                            actual: offer@.text_bytes as usize,
                            maximum: 0x10_0000,
                        },
                    ),
                )
            },
            _ => crate::protocol::message::envelope_fault(message) is None,
        },
{
}

/// A text is what was offered exactly where generation, length and digest are the
/// same; the first that differs is told.
pub proof fn law_texts_match_by_generation_length_and_digest(
    offer: crate::protocol::clipboard::OfferView,
    transfer: crate::protocol::clipboard::TextView,
)
    ensures
        ({
            let bytes = vstd::utf8::encode_utf8(transfer.text);
            let named = offer.generation.owner == transfer.generation.owner
                && offer.generation.sequence == transfer.generation.sequence;
            let long = offer.text_bytes == bytes.len();
            let same = offer.digest == crate::digest::sha256_of(bytes);
            &&& offer.mismatch(transfer) is None <==> named && long && same
            &&& !named ==> offer.mismatch(transfer) == Some(ClipboardError::GenerationMismatch)
            &&& named && !long ==> offer.mismatch(transfer) == Some(
                ClipboardError::LengthMismatch {
                    offered: offer.text_bytes as usize,
                    actual: bytes.len() as usize,
                },
            )
            &&& named && long && !same ==> offer.mismatch(transfer) == Some(
                ClipboardError::DigestMismatch,
            )
        }),
{
}

/// Texts of up to a mebibyte travel, in frames of up to 256 bytes more.
pub proof fn law_clipboard_texts_are_bounded(length: int)
    requires
        length >= 0,
    ensures
        crate::protocol::clipboard::text_length_fault(length) is None <==> length <= 1_048_576,
        crate::protocol::clipboard::frame_length_fault(length) is None <==> length <= 1_048_832,
{
}

/// What a frame holds becomes a text exactly where its owner is a node name, its
/// sequence is not zero and its text is short enough, and then it is that text.
pub proof fn law_frames_hold_valid_texts(
    length: int,
    owner: Seq<char>,
    sequence: u64,
    text: Seq<char>,
)
    requires
        0 <= length <= 1_048_832,
    ensures
        ({
            let read = crate::protocol::clipboard::decoded_transfer(
                length,
                Some((owner, sequence, text)),
            );
            let valid = crate::domain::identity::is_node_id(vstd::utf8::encode_utf8(owner))
                && sequence > 0 && vstd::utf8::encode_utf8(text).len() <= 1_048_576;
            &&& read is Ok <==> valid
            &&& read matches Ok(transfer) ==> transfer.generation.owner == owner
                && transfer.generation.sequence == sequence && transfer.text == text
        }),
{
}

/// Lengths are written with the highest byte first.
pub proof fn law_lengths_are_big_endian(value: u32)
    ensures
        ({
            let bytes = crate::protocol::codec::big_endian_bytes(value);
            &&& bytes.len() == 4
            &&& value == bytes[0] * 16_777_216 + bytes[1] * 65_536 + bytes[2] * 256 + bytes[3]
        }),
{
}

/// The first four bytes tell how many follow, the highest first: a frame is taken
/// once all of them are there, unless they are more than the maximum.
pub proof fn law_frames_begin_with_their_length(received: Seq<u8>, maximum: int)
    ensures
        ({
            let length = received[0] * 16_777_216 + received[1] * 65_536 + received[2] * 256
                + received[3];
            match crate::protocol::codec::next_frame(received, maximum) {
                FrameStep::TooLarge { length: told } => received.len() >= 4 && told == length
                    && length > maximum,
                FrameStep::Complete { payload, rest } => {
                    &&& received.len() >= 4
                    &&& length <= maximum
                    &&& payload.len() == length
                    &&& received == received.take(4) + payload + rest
                },
                FrameStep::Incomplete => received.len() < 4 || (length <= maximum
                    && received.len() < 4 + length),
            }
        }),
{
    if let FrameStep::Complete { payload, rest } = crate::protocol::codec::next_frame(
        received,
        maximum,
    ) {
        assert(received =~= received.take(4) + payload + rest);
    }
}

/// The number that bytes stand for in groups of seven bits, the lowest first.
pub open spec fn number_of(bytes: Seq<u8>) -> int
    decreases bytes.len(),
{
    if bytes.len() == 0 {
        0
    } else {
        bytes[0] as int % 128 + 128 * number_of(bytes.skip(1))
    }
}

/// A number is written in groups of seven bits that together are the number; every
/// byte but the last says that more follow, and the last that none do.
pub proof fn law_numbers_are_written_in_groups(n: nat)
    ensures
        ({
            let bytes = crate::protocol::clipboard::varint(n);
            &&& bytes.len() > 0
            &&& number_of(bytes) == n
            &&& bytes.last() < 128
            &&& forall|i: int| 0 <= i < bytes.len() - 1 ==> #[trigger] bytes[i] >= 128
            &&& n < 128 ==> bytes.len() == 1
        }),
    decreases n,
{
    let bytes = crate::protocol::clipboard::varint(n);
    reveal_with_fuel(number_of, 2);
    if n < 128 {
        assert(bytes.skip(1) =~= Seq::<u8>::empty());
    } else {
        let rest = crate::protocol::clipboard::varint(n / 128);
        law_numbers_are_written_in_groups(n / 128);
        assert(bytes.skip(1) =~= rest);
        assert(bytes.last() == rest.last());
        assert(bytes[0] as int % 128 == n % 128);
        assert forall|i: int| 0 <= i < bytes.len() - 1 implies #[trigger] bytes[i] >= 128 by {
            if i > 0 {
                assert(bytes[i] == rest[i - 1]);
            }
        }
    }
}

} // verus!
