//! Clipboard text on the wire: offers, transfers and their limits.

use vstd::prelude::*;
use vstd::string::*;

use crate::digest::{same_digest, sha256};
use crate::domain::identity::NodeId;
use crate::domain::nonzero::NonZeroU64;
use crate::text::push_decimal;

verus! {

pub const MAX_CLIPBOARD_TEXT_BYTES: usize = 1024 * 1024;

pub const MAX_CLIPBOARD_FRAME_BYTES: usize = 1024 * 1024 + 256;

/// One clipboard content: the node that set it and its place in that node's
/// order.
#[derive(Debug, Eq, Hash)]
pub struct ClipboardGeneration {
    pub owner: NodeId,
    pub sequence: NonZeroU64,
}

pub ghost struct GenerationView {
    pub owner: Seq<char>,
    pub sequence: u64,
}

impl View for ClipboardGeneration {
    type V = GenerationView;

    open spec fn view(&self) -> GenerationView {
        GenerationView { owner: self.owner@, sequence: self.sequence@ }
    }
}

impl ClipboardGeneration {
    pub fn new(owner: NodeId, sequence: NonZeroU64) -> (generation: ClipboardGeneration)
        ensures
            generation == (ClipboardGeneration { owner, sequence }),
    {
        ClipboardGeneration { owner, sequence }
    }
}

impl Clone for ClipboardGeneration {
    fn clone(&self) -> (copy: ClipboardGeneration)
        ensures
            copy == *self,
    {
        ClipboardGeneration { owner: self.owner.clone(), sequence: self.sequence }
    }
}

impl PartialEq for ClipboardGeneration {
    fn eq(&self, other: &ClipboardGeneration) -> (result: bool) {
        self.owner == other.owner && self.sequence.get() == other.sequence.get()
    }
}

impl vstd::std_specs::cmp::PartialEqSpecImpl for ClipboardGeneration {
    open spec fn obeys_eq_spec() -> bool {
        true
    }

    open spec fn eq_spec(&self, other: &ClipboardGeneration) -> bool {
        self@ == other@
    }
}

/// What a node announces of a clipboard text before it sends it.
#[derive(Debug, Eq)]
pub struct ClipboardOffer {
    generation: ClipboardGeneration,
    text_bytes: u32,
    digest: [u8; 32],
}

pub ghost struct OfferView {
    pub generation: GenerationView,
    pub text_bytes: u32,
    pub digest: Seq<u8>,
}

impl View for ClipboardOffer {
    type V = OfferView;

    closed spec fn view(&self) -> OfferView {
        OfferView {
            generation: self.generation@,
            text_bytes: self.text_bytes,
            digest: self.digest@,
        }
    }
}

/// A clipboard text with its generation.
#[derive(Debug, Eq)]
pub struct ClipboardText {
    generation: ClipboardGeneration,
    text: String,
}

pub ghost struct TextView {
    pub generation: GenerationView,
    pub text: Seq<char>,
}

impl View for ClipboardText {
    type V = TextView;

    closed spec fn view(&self) -> TextView {
        TextView { generation: self.generation@, text: self.text@ }
    }
}

impl TextView {
    /// The text as UTF-8.
    pub open spec fn bytes(self) -> Seq<u8> {
        vstd::utf8::encode_utf8(self.text)
    }

    /// The text is within the limit.
    pub open spec fn fits(self) -> bool {
        self.bytes().len() <= MAX_CLIPBOARD_TEXT_BYTES
    }

    /// What is announced of the text.
    pub open spec fn announced(self) -> OfferView {
        OfferView {
            generation: self.generation,
            text_bytes: self.bytes().len() as u32,
            digest: crate::digest::sha256_of(self.bytes()),
        }
    }
}

impl OfferView {
    /// Why a transfer is not what was offered; `None` where it is.
    pub open spec fn mismatch(self, transfer: TextView) -> Option<ClipboardError> {
        if self.generation != transfer.generation {
            Some(ClipboardError::GenerationMismatch)
        } else if self.text_bytes != transfer.bytes().len() {
            Some(
                ClipboardError::LengthMismatch {
                    offered: self.text_bytes as usize,
                    actual: transfer.bytes().len() as usize,
                },
            )
        } else if self.digest != crate::digest::sha256_of(transfer.bytes()) {
            Some(ClipboardError::DigestMismatch)
        } else {
            None
        }
    }
}

/// The error that a text of `actual` bytes is refused with.
pub open spec fn text_length_fault(actual: int) -> Option<ClipboardError> {
    if actual > MAX_CLIPBOARD_TEXT_BYTES {
        Some(
            ClipboardError::TextTooLarge {
                actual: actual as usize,
                maximum: MAX_CLIPBOARD_TEXT_BYTES,
            },
        )
    } else {
        None
    }
}

/// The error that a frame of `actual` bytes is refused with.
pub open spec fn frame_length_fault(actual: int) -> Option<ClipboardError> {
    if actual > MAX_CLIPBOARD_FRAME_BYTES {
        Some(
            ClipboardError::FrameTooLarge {
                actual: actual as usize,
                maximum: MAX_CLIPBOARD_FRAME_BYTES,
            },
        )
    } else {
        None
    }
}

impl ClipboardOffer {
    pub fn generation(&self) -> (generation: &ClipboardGeneration)
        ensures
            generation@ == self@.generation,
    {
        &self.generation
    }

    pub fn text_bytes(&self) -> (count: u32)
        ensures
            count == self@.text_bytes,
    {
        self.text_bytes
    }

    pub fn digest(&self) -> (digest: &[u8; 32])
        ensures
            digest@ == self@.digest,
    {
        &self.digest
    }

    /// An offer as it was received.
    pub fn from_parts(
        generation: ClipboardGeneration,
        text_bytes: u32,
        digest: [u8; 32],
    ) -> (offer: ClipboardOffer)
        ensures
            offer@ == (OfferView { generation: generation@, text_bytes, digest: digest@ }),
    {
        ClipboardOffer { generation, text_bytes, digest }
    }

    /// Checks that a transfer is what was offered.
    pub fn verify(&self, transfer: &ClipboardText) -> (result: Result<(), ClipboardError>)
        ensures
            result == match self@.mismatch(transfer@) {
                Some(error) => Err::<(), ClipboardError>(error),
                None => Ok(()),
            },
    {
        if self.generation != transfer.generation {
            return Err(ClipboardError::GenerationMismatch);
        }
        let bytes = transfer.text.as_str().as_bytes();
        let actual: usize = bytes.len();
        if self.text_bytes as usize != actual {
            return Err(
                ClipboardError::LengthMismatch { offered: self.text_bytes as usize, actual },
            );
        }
        if !same_digest(&self.digest, &sha256(bytes)) {
            return Err(ClipboardError::DigestMismatch);
        }
        Ok(())
    }

    /// Checks that the offered text is within the limit.
    pub fn validate(&self) -> (result: Result<(), ClipboardError>)
        ensures
            result == match text_length_fault(self@.text_bytes as int) {
                Some(error) => Err::<(), ClipboardError>(error),
                None => Ok(()),
            },
    {
        validate_text_length(self.text_bytes as usize)
    }
}

impl Clone for ClipboardOffer {
    fn clone(&self) -> (copy: ClipboardOffer)
        ensures
            copy == *self,
    {
        ClipboardOffer {
            generation: self.generation.clone(),
            text_bytes: self.text_bytes,
            digest: self.digest,
        }
    }
}

impl PartialEq for ClipboardOffer {
    fn eq(&self, other: &ClipboardOffer) -> (result: bool) {
        self.generation == other.generation && self.text_bytes == other.text_bytes && same_digest(
            &self.digest,
            &other.digest,
        )
    }
}

impl vstd::std_specs::cmp::PartialEqSpecImpl for ClipboardOffer {
    open spec fn obeys_eq_spec() -> bool {
        true
    }

    open spec fn eq_spec(&self, other: &ClipboardOffer) -> bool {
        self@ == other@
    }
}

impl ClipboardText {
    #[verifier::type_invariant]
    closed spec fn is_within_limit(self) -> bool {
        self@.fits()
    }

    pub fn new(generation: ClipboardGeneration, text: String) -> (result: Result<
        ClipboardText,
        ClipboardError,
    >)
        ensures
            match text_length_fault(vstd::utf8::encode_utf8(text@).len() as int) {
                Some(error) => result == Err::<ClipboardText, ClipboardError>(error),
                None => result matches Ok(transfer) && transfer@ == (TextView {
                    generation: generation@,
                    text: text@,
                }),
            },
    {
        match validate_text_length(text.as_str().as_bytes().len()) {
            Ok(()) => Ok(ClipboardText { generation, text }),
            Err(error) => Err(error),
        }
    }

    pub fn generation(&self) -> (generation: &ClipboardGeneration)
        ensures
            generation@ == self@.generation,
    {
        &self.generation
    }

    pub fn text(&self) -> (text: &str)
        ensures
            text@ == self@.text,
            self@.fits(),
    {
        proof {
            use_type_invariant(self);
        }
        self.text.as_str()
    }

    pub fn into_text(self) -> (text: String)
        ensures
            text@ == self@.text,
    {
        self.text
    }

    /// What to announce of the text.
    pub fn offer(&self) -> (offer: ClipboardOffer)
        ensures
            offer@ == self@.announced(),
            offer@.mismatch(self@) is None,
    {
        proof {
            use_type_invariant(self);
        }
        let bytes = self.text.as_str().as_bytes();
        ClipboardOffer {
            generation: self.generation.clone(),
            text_bytes: bytes.len() as u32,
            digest: sha256(bytes),
        }
    }

    /// The transfer as the payload of a clipboard frame.
    pub fn encode(&self) -> (result: Result<Vec<u8>, ClipboardError>)
        ensures
            result matches Ok(encoded) && encoded@ == encoded_transfer(self@),
            encoded_transfer(self@).len() <= MAX_CLIPBOARD_FRAME_BYTES,
    {
        proof {
            use_type_invariant(self);
        }
        match validate_text_length(self.text.as_str().as_bytes().len()) {
            Ok(()) => {},
            Err(error) => {
                return Err(error);
            },
        }
        let owner = self.generation.owner.as_str();
        proof {
            lemma_encoded_transfer_fits(self@);
        }
        let encoded = match serialize_transfer(
            owner,
            self.generation.sequence.get(),
            self.text.as_str(),
        ) {
            Ok(encoded) => encoded,
            Err(_) => {
                return Err(ClipboardError::Serialize);
            },
        };
        match validate_frame_length(encoded.len()) {
            Ok(()) => Ok(encoded),
            Err(error) => Err(error),
        }
    }

    /// Reads the payload of a clipboard frame.
    pub fn decode(encoded: &[u8]) -> (result: Result<ClipboardText, ClipboardError>)
        ensures
            decoded_transfer(encoded@.len() as int, parsed_transfer(encoded@)) == (match result {
                Ok(transfer) => Ok::<TextView, ClipboardError>(transfer@),
                Err(error) => Err(error),
            }),
            forall|transfer: TextView|
                transfer.fits() && crate::domain::identity::is_node_id(
                    vstd::utf8::encode_utf8(transfer.generation.owner),
                ) && transfer.generation.sequence > 0 && encoded@ == #[trigger] encoded_transfer(
                    transfer,
                ) ==> (result matches Ok(decoded) && decoded@ == transfer),
    {
        match validate_frame_length(encoded.len()) {
            Ok(()) => {},
            Err(error) => {
                proof {
                    assert forall|transfer: TextView|
                        transfer.fits() && crate::domain::identity::is_node_id(
                            vstd::utf8::encode_utf8(transfer.generation.owner),
                        ) implies encoded@ != #[trigger] encoded_transfer(transfer) by {
                        lemma_encoded_transfer_fits(transfer);
                    }
                }
                return Err(error);
            },
        }
        let (owner, sequence, text) = match deserialize_transfer(encoded) {
            Ok(parsed) => parsed,
            Err(_) => {
                return Err(ClipboardError::Deserialize);
            },
        };
        ClipboardText::from_parsed(owner, sequence, text)
    }

    /// A transfer of the values that a frame held.
    pub fn from_parsed(owner: String, sequence: u64, text: String) -> (result: Result<
        ClipboardText,
        ClipboardError,
    >)
        ensures
            parsed_values(owner@, sequence, text@) == (match result {
                Ok(transfer) => Ok::<TextView, ClipboardError>(transfer@),
                Err(error) => Err(error),
            }),
    {
        let owner = match NodeId::new(owner.as_str()) {
            Ok(owner) => owner,
            Err(_) => {
                return Err(ClipboardError::Deserialize);
            },
        };
        let sequence = match NonZeroU64::new(sequence) {
            Some(sequence) => sequence,
            None => {
                return Err(ClipboardError::Deserialize);
            },
        };
        ClipboardText::new(ClipboardGeneration::new(owner, sequence), text)
    }
}

impl Clone for ClipboardText {
    fn clone(&self) -> (copy: ClipboardText)
        ensures
            copy == *self,
    {
        proof {
            use_type_invariant(self);
        }
        ClipboardText { generation: self.generation.clone(), text: self.text.clone() }
    }
}

impl PartialEq for ClipboardText {
    fn eq(&self, other: &ClipboardText) -> (result: bool) {
        self.generation == other.generation && self.text == other.text
    }
}

impl vstd::std_specs::cmp::PartialEqSpecImpl for ClipboardText {
    open spec fn obeys_eq_spec() -> bool {
        true
    }

    open spec fn eq_spec(&self, other: &ClipboardText) -> bool {
        self@ == other@
    }
}

/// What the values of a parsed frame stand for.
pub open spec fn parsed_values(owner: Seq<char>, sequence: u64, text: Seq<char>) -> Result<
    TextView,
    ClipboardError,
> {
    let transfer = TextView { generation: GenerationView { owner, sequence }, text };
    if !crate::domain::identity::is_node_id(vstd::utf8::encode_utf8(owner)) || sequence == 0 {
        Err(ClipboardError::Deserialize)
    } else {
        match text_length_fault(transfer.bytes().len() as int) {
            Some(error) => Err(error),
            None => Ok(transfer),
        }
    }
}

/// What a frame of `length` bytes with this parsed content stands for.
pub open spec fn decoded_transfer(
    length: int,
    parsed: Option<(Seq<char>, u64, Seq<char>)>,
) -> Result<TextView, ClipboardError> {
    match frame_length_fault(length) {
        Some(error) => Err(error),
        None => match parsed {
            None => Err(ClipboardError::Deserialize),
            Some((owner, sequence, text)) => parsed_values(owner, sequence, text),
        },
    }
}

/// An integer in groups of seven bits, the lowest first, each but the last
/// with its top bit set.
pub open spec fn varint(n: nat) -> Seq<u8>
    decreases n,
{
    if n < 128 {
        seq![n as u8]
    } else {
        seq![(n % 128 + 128) as u8] + varint(n / 128)
    }
}

/// A text behind the number of its bytes.
pub open spec fn length_prefixed(bytes: Seq<u8>) -> Seq<u8> {
    varint(bytes.len()) + bytes
}

/// The payload of the clipboard frame that carries a transfer.
pub open spec fn encoded_transfer(transfer: TextView) -> Seq<u8> {
    length_prefixed(vstd::utf8::encode_utf8(transfer.generation.owner)) + varint(
        transfer.generation.sequence as nat,
    ) + length_prefixed(transfer.bytes())
}

/// What Postcard reads from `bytes` as an owner, a sequence and a text.
pub uninterp spec fn parsed_transfer(bytes: Seq<u8>) -> Option<(Seq<char>, u64, Seq<char>)>;

/// The values of a successful read.
pub open spec fn values_read(result: Result<(String, u64, String), postcard::Error>) -> Option<
    (Seq<char>, u64, Seq<char>),
> {
    match result {
        Ok((owner, sequence, text)) => Some((owner@, sequence, text@)),
        Err(_) => None,
    }
}

#[verifier::external_type_specification]
#[verifier::external_body]
pub struct ExPostcardError(postcard::Error);

/// Calls `postcard::to_allocvec` on an owner, a sequence and a text. Writing to
/// a vector succeeds, and the bytes are those of the Postcard wire format: the
/// members one after the other, a string behind its length, and integers of
/// more than one byte as variable length integers.
#[verifier::external_body]
fn serialize_transfer(owner: &str, sequence: u64, text: &str) -> (result: Result<
    Vec<u8>,
    postcard::Error,
>)
    ensures
        result is Ok,
        result->Ok_0@ == length_prefixed(owner.spec_bytes()) + varint(sequence as nat)
            + length_prefixed(text.spec_bytes()),
{
    postcard::to_allocvec(&(owner, sequence, text))
}

/// Calls `postcard::from_bytes` for an owner, a sequence and a text. The result
/// is a function of the bytes alone, and what `postcard::to_allocvec` wrote is
/// read back; what is read from other bytes is not stated.
#[verifier::external_body]
fn deserialize_transfer(bytes: &[u8]) -> (result: Result<(String, u64, String), postcard::Error>)
    ensures
        values_read(result) == parsed_transfer(bytes@),
        forall|transfer: TextView|
            bytes@ == #[trigger] encoded_transfer(transfer) ==> values_read(result) == Some(
                (transfer.generation.owner, transfer.generation.sequence, transfer.text),
            ),
{
    postcard::from_bytes(bytes)
}

proof fn lemma_varint_length(n: nat, groups: nat)
    requires
        groups > 0,
        n < vstd::arithmetic::power::pow(128, groups),
    ensures
        varint(n).len() <= groups,
    decreases groups,
{
    vstd::arithmetic::power::lemma_pow1(128);
    if n >= 128 {
        assert(groups > 1) by {
            if groups == 1 {
                assert(vstd::arithmetic::power::pow(128, groups) == 128);
            }
        }
        let fewer = (groups - 1) as nat;
        assert(vstd::arithmetic::power::pow(128, groups) == 128 * vstd::arithmetic::power::pow(
            128,
            fewer,
        )) by {
            reveal(vstd::arithmetic::power::pow);
        }
        let bound = vstd::arithmetic::power::pow(128, fewer);
        assert(n / 128 < bound) by (nonlinear_arith)
            requires
                n < 128 * bound,
        ;
        lemma_varint_length(n / 128, fewer);
    }
}

proof fn lemma_encoded_transfer_fits(transfer: TextView)
    requires
        transfer.fits(),
        crate::domain::identity::is_node_id(vstd::utf8::encode_utf8(transfer.generation.owner)),
    ensures
        encoded_transfer(transfer).len() <= MAX_CLIPBOARD_FRAME_BYTES,
{
    reveal_with_fuel(vstd::arithmetic::power::pow, 11);
    assert(vstd::arithmetic::power::pow(128, 1) == 128);
    assert(vstd::arithmetic::power::pow(128, 2) == 0x4000);
    assert(vstd::arithmetic::power::pow(128, 3) == 0x20_0000);
    assert(vstd::arithmetic::power::pow(128, 4) == 0x1000_0000);
    assert(vstd::arithmetic::power::pow(128, 5) == 0x8_0000_0000);
    assert(vstd::arithmetic::power::pow(128, 6) == 0x400_0000_0000);
    assert(vstd::arithmetic::power::pow(128, 7) == 0x2_0000_0000_0000);
    assert(vstd::arithmetic::power::pow(128, 8) == 0x100_0000_0000_0000);
    assert(vstd::arithmetic::power::pow(128, 9) == 0x8000_0000_0000_0000);
    assert(vstd::arithmetic::power::pow(128, 10) == 0x40_0000_0000_0000_0000);
    lemma_varint_length(vstd::utf8::encode_utf8(transfer.generation.owner).len(), 1);
    lemma_varint_length(transfer.generation.sequence as nat, 10);
    lemma_varint_length(transfer.bytes().len(), 3);
}

/// A clipboard message on the control stream.
#[derive(Debug, PartialEq, Eq)]
pub enum ClipboardControl {
    Offered(ClipboardOffer),
    Applied { generation: ClipboardGeneration },
}

pub ghost enum ControlView {
    Offered(OfferView),
    Applied { generation: GenerationView },
}

impl View for ClipboardControl {
    type V = ControlView;

    open spec fn view(&self) -> ControlView {
        match self {
            ClipboardControl::Offered(offer) => ControlView::Offered(offer@),
            ClipboardControl::Applied { generation } => ControlView::Applied {
                generation: generation@,
            },
        }
    }
}

impl Clone for ClipboardControl {
    fn clone(&self) -> (copy: ClipboardControl)
        ensures
            copy == *self,
    {
        match self {
            ClipboardControl::Offered(offer) => ClipboardControl::Offered(offer.clone()),
            ClipboardControl::Applied { generation } => ClipboardControl::Applied {
                generation: generation.clone(),
            },
        }
    }
}

fn validate_text_length(actual: usize) -> (result: Result<(), ClipboardError>)
    ensures
        result == match text_length_fault(actual as int) {
            Some(error) => Err::<(), ClipboardError>(error),
            None => Ok(()),
        },
{
    if actual > MAX_CLIPBOARD_TEXT_BYTES {
        return Err(ClipboardError::TextTooLarge { actual, maximum: MAX_CLIPBOARD_TEXT_BYTES });
    }
    Ok(())
}

fn validate_frame_length(actual: usize) -> (result: Result<(), ClipboardError>)
    ensures
        result == match frame_length_fault(actual as int) {
            Some(error) => Err::<(), ClipboardError>(error),
            None => Ok(()),
        },
{
    if actual > MAX_CLIPBOARD_FRAME_BYTES {
        return Err(ClipboardError::FrameTooLarge { actual, maximum: MAX_CLIPBOARD_FRAME_BYTES });
    }
    Ok(())
}

/// Why clipboard text is refused.
#[derive(Clone, Copy, Debug, PartialEq, Eq, Structural)]
pub enum ClipboardError {
    TextTooLarge { actual: usize, maximum: usize },
    FrameTooLarge { actual: usize, maximum: usize },
    Serialize,
    Deserialize,
    GenerationMismatch,
    LengthMismatch { offered: usize, actual: usize },
    DigestMismatch,
}

/// What a transfer announces of itself matches the transfer.
pub proof fn law_a_transfer_matches_its_offer(transfer: TextView)
    requires
        transfer.fits(),
    ensures
        transfer.announced().mismatch(transfer) is None,
{
}

/// An offer is matched only by transfers of its generation, length and digest.
pub proof fn law_a_matching_transfer_is_announced_alike(offer: OfferView, transfer: TextView)
    requires
        transfer.fits(),
        offer.mismatch(transfer) is None,
    ensures
        offer == transfer.announced(),
{
}

impl GenerationView {
    /// The generation as it is shown.
    pub open spec fn text(self) -> Seq<char> {
        "ClipboardGeneration { owner: NodeId(\""@ + self.owner + "\"), sequence: "@
            + crate::text::decimal(self.sequence as nat) + " }"@
    }
}

impl ClipboardGeneration {
    /// Shows the generation at the end of `message`.
    pub(crate) fn describe(&self, message: &mut String)
        ensures
            final(message)@ == old(message)@ + self@.text(),
    {
        message.append("ClipboardGeneration { owner: NodeId(\"");
        message.append(self.owner.as_str());
        message.append("\"), sequence: ");
        push_decimal(message, self.sequence.get());
        message.append(" }");
        assert(message@ =~= old(message)@ + self@.text());
    }
}

impl ClipboardError {
    /// The error in words.
    pub open spec fn text(self) -> Seq<char> {
        match self {
            ClipboardError::TextTooLarge { actual, maximum } => {
                "clipboard text is "@ + crate::text::decimal(actual as nat)
                    + " bytes; the maximum is "@ + crate::text::decimal(maximum as nat)
            },
            ClipboardError::FrameTooLarge { actual, maximum } => {
                "clipboard frame is "@ + crate::text::decimal(actual as nat)
                    + " bytes; the maximum is "@ + crate::text::decimal(maximum as nat)
            },
            ClipboardError::Serialize => "could not serialize clipboard text"@,
            ClipboardError::Deserialize => "could not deserialize clipboard text"@,
            ClipboardError::GenerationMismatch => {
                "clipboard transfer generation does not match its offer"@
            },
            ClipboardError::LengthMismatch { offered, actual } => {
                "clipboard transfer is "@ + crate::text::decimal(actual as nat)
                    + " bytes, but its offer declared "@ + crate::text::decimal(offered as nat)
            },
            ClipboardError::DigestMismatch => {
                "clipboard transfer digest does not match its offer"@
            },
        }
    }

    /// The error in words.
    pub fn message(&self) -> (message: String)
        ensures
            message@ == self.text(),
    {
        let mut message = String::new();
        match self {
            ClipboardError::TextTooLarge { actual, maximum } => {
                message.append("clipboard text is ");
                push_decimal(&mut message, *actual as u64);
                message.append(" bytes; the maximum is ");
                push_decimal(&mut message, *maximum as u64);
            },
            ClipboardError::FrameTooLarge { actual, maximum } => {
                message.append("clipboard frame is ");
                push_decimal(&mut message, *actual as u64);
                message.append(" bytes; the maximum is ");
                push_decimal(&mut message, *maximum as u64);
            },
            ClipboardError::Serialize => message.append("could not serialize clipboard text"),
            ClipboardError::Deserialize => message.append("could not deserialize clipboard text"),
            ClipboardError::GenerationMismatch => {
                message.append("clipboard transfer generation does not match its offer");
            },
            ClipboardError::LengthMismatch { offered, actual } => {
                message.append("clipboard transfer is ");
                push_decimal(&mut message, *actual as u64);
                message.append(" bytes, but its offer declared ");
                push_decimal(&mut message, *offered as u64);
            },
            ClipboardError::DigestMismatch => {
                message.append("clipboard transfer digest does not match its offer");
            },
        }
        assert(message@ =~= self.text());
        message
    }
}

} // verus!
