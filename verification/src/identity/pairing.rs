//! Pairing bundles and the codes that confirm them.

use vstd::prelude::*;
use vstd::string::*;

use crate::digest::sha256;
use crate::domain::identity::NodeId;
use crate::encoding::{
    decode_standard, decode_url, encode_standard, encode_url, hex_group_text,
};
use crate::text::{chars_of, push_decimal, trim};

verus! {

pub const BUNDLE_PREFIX: &'static str = "tevir-pair-v1.";

pub const BUNDLE_VERSION: u8 = 1;

pub const MAX_BUNDLE_BYTES: usize = 64 * 1024;

pub const MAX_CERTIFICATE_BYTES: usize = 16 * 1024;

pub const CODE_BYTES: usize = 12;

/// The largest certificate that a bundle is written down for.
pub const MAX_ANCHOR_BYTES: usize = 0x1000_0000;

/// A node and the certificate that it is trusted by.
#[derive(Debug, PartialEq, Eq)]
pub struct PairingBundle {
    node: NodeId,
    trust_anchor: Vec<u8>,
}

pub ghost struct BundleView {
    pub node: Seq<char>,
    pub trust_anchor: Seq<u8>,
}

impl View for PairingBundle {
    type V = BundleView;

    closed spec fn view(&self) -> BundleView {
        BundleView { node: self.node@, trust_anchor: self.trust_anchor@ }
    }
}

/// The content of a bundle as it is written down.
#[derive(Debug, PartialEq, Eq)]
pub struct PairingPayload {
    pub version: u8,
    pub node: NodeId,
    pub trust_anchor: String,
}

/// The JSON text of a bundle.
pub open spec fn bundle_json(bundle: BundleView) -> Seq<char> {
    "{\"version\":1,\"node\":\""@ + bundle.node + "\",\"trust_anchor\":\""@
        + crate::encoding::standard_base64(bundle.trust_anchor) + "\"}"@
}

/// The text that a bundle is handed over as.
pub open spec fn bundle_text(bundle: BundleView) -> Seq<char> {
    BUNDLE_PREFIX@ + crate::encoding::url_base64(vstd::utf8::encode_utf8(bundle_json(bundle)))
}

/// `text` begins with `prefix`.
pub open spec fn has_prefix(text: Seq<char>, prefix: Seq<char>) -> bool {
    prefix.len() <= text.len() && text.take(prefix.len() as int) == prefix
}

/// The content that a handed over text carries.
pub open spec fn carried_payload(value: Seq<char>) -> Result<Seq<u8>, PairingError> {
    let inner = crate::text::trimmed(value);
    if vstd::utf8::encode_utf8(value).len() > MAX_BUNDLE_BYTES {
        Err(PairingError::BundleTooLarge)
    } else if !has_prefix(inner, BUNDLE_PREFIX@) {
        Err(PairingError::InvalidPrefix)
    } else {
        match crate::encoding::url_base64_bytes(inner.skip(BUNDLE_PREFIX@.len() as int)) {
            None => Err(PairingError::InvalidEncoding),
            Some(payload) => if payload.len() > MAX_BUNDLE_BYTES {
                Err(PairingError::BundleTooLarge)
            } else {
                Ok(payload)
            },
        }
    }
}

/// The bundle that a version, a node and a Base64 certificate stand for.
pub open spec fn payload_bundle(version: u8, node: Seq<char>, trust_anchor: Seq<char>) -> Result<
    BundleView,
    PairingError,
> {
    if version != BUNDLE_VERSION {
        Err(PairingError::UnsupportedVersion(version))
    } else {
        match crate::encoding::standard_base64_bytes(trust_anchor) {
            None => Err(PairingError::InvalidCertificateEncoding),
            Some(bytes) => if bytes.len() == 0 || bytes.len() > MAX_CERTIFICATE_BYTES {
                Err(
                    PairingError::InvalidCertificateLength {
                        actual: bytes.len() as usize,
                        maximum: MAX_CERTIFICATE_BYTES,
                    },
                )
            } else {
                Ok(BundleView { node, trust_anchor: bytes })
            },
        }
    }
}

/// What a bundle text comes to, given what its content was read as.
pub open spec fn decoded_bundle(payload: Result<PairingPayload, String>) -> Result<
    BundleView,
    PairingError,
> {
    match payload {
        Err(reason) => Err(PairingError::InvalidPayload(reason)),
        Ok(payload) => payload_bundle(payload.version, payload.node@, payload.trust_anchor@),
    }
}

pub open spec fn bundle_outcome(result: Result<PairingBundle, PairingError>) -> Result<
    BundleView,
    PairingError,
> {
    match result {
        Ok(bundle) => Ok(bundle@),
        Err(error) => Err(error),
    }
}

impl PairingBundle {
    #[verifier::type_invariant]
    pub open spec fn is_encodable(self) -> bool {
        self@.trust_anchor.len() <= MAX_ANCHOR_BYTES
    }

    pub fn new(node: NodeId, trust_anchor: Vec<u8>) -> (bundle: PairingBundle)
        requires
            trust_anchor@.len() <= MAX_ANCHOR_BYTES,
        ensures
            bundle@ == (BundleView { node: node@, trust_anchor: trust_anchor@ }),
    {
        PairingBundle { node, trust_anchor }
    }

    pub fn node(&self) -> (node: &NodeId)
        ensures
            node@ == self@.node,
    {
        &self.node
    }

    /// The code by which people confirm the bundle.
    pub fn code(&self) -> (code: PairingCode)
        ensures
            code@ == code_text(crate::digest::sha256_of(self@.trust_anchor)),
    {
        PairingCode::from_certificate(self.trust_anchor.as_slice())
    }

    /// The digest of the certificate.
    pub fn fingerprint(&self) -> (fingerprint: [u8; 32])
        ensures
            fingerprint@ == crate::digest::sha256_of(self@.trust_anchor),
    {
        certificate_fingerprint(self.trust_anchor.as_slice())
    }

    pub fn trust_anchor(&self) -> (certificate: &[u8])
        ensures
            certificate@ == self@.trust_anchor,
    {
        self.trust_anchor.as_slice()
    }

    /// The text to hand the bundle over as. Its content is the JSON text of the
    /// bundle, and a bundle with a certificate of acceptable size is what that
    /// content says.
    pub fn encode(&self) -> (text: String)
        ensures
            text@ == bundle_text(self@),
            vstd::utf8::is_ascii_chars(text@),
            text@.len() > 0,
            self@.trust_anchor.len() <= MAX_CERTIFICATE_BYTES ==> carried_payload(text@) == Ok::<
                Seq<u8>,
                PairingError,
            >(vstd::utf8::encode_utf8(bundle_json(self@))),
            0 < self@.trust_anchor.len() <= MAX_CERTIFICATE_BYTES ==> payload_bundle(
                BUNDLE_VERSION,
                self@.node,
                crate::encoding::standard_base64(self@.trust_anchor),
            ) == Ok::<BundleView, PairingError>(self@),
    {
        proof {
            use_type_invariant(self);
        }
        let anchor = encode_standard(self.trust_anchor.as_slice());
        let mut json = String::new();
        json.append("{\"version\":1,\"node\":\"");
        json.append(self.node.as_str());
        json.append("\",\"trust_anchor\":\"");
        json.append(anchor.as_str());
        json.append("\"}");
        proof {
            assert(json@ =~= bundle_json(self@));
            lemma_json_length(self@, anchor@);
        }
        let content = encode_url(json.as_str().as_bytes());
        let mut text = String::new();
        text.append(BUNDLE_PREFIX);
        text.append(content.as_str());
        proof {
            assert(text@ =~= bundle_text(self@));
            reveal_strlit("tevir-pair-v1.");
            assert(vstd::utf8::is_ascii_chars(text@)) by {
                assert forall|i: int| 0 <= i < text@.len() implies '\0' <= #[trigger] text@[i]
                    <= '\u{7f}' by {
                    if i >= BUNDLE_PREFIX@.len() {
                        assert(text@[i] == content@[i - BUNDLE_PREFIX@.len()]);
                    }
                }
            }
            if self@.trust_anchor.len() <= MAX_CERTIFICATE_BYTES {
                lemma_bundle_text_is_read_back(content@, vstd::utf8::encode_utf8(json@));
                assert(text@ =~= BUNDLE_PREFIX@ + content@);
            }
        }
        text
    }

    /// The content that a handed over text carries.
    pub fn payload_of(value: &str) -> (result: Result<Vec<u8>, PairingError>)
        ensures
            match result {
                Ok(payload) => carried_payload(value@) == Ok::<Seq<u8>, PairingError>(payload@),
                Err(error) => carried_payload(value@) == Err::<Seq<u8>, PairingError>(error),
            },
    {
        if value.as_bytes().len() > MAX_BUNDLE_BYTES {
            return Err(PairingError::BundleTooLarge);
        }
        let inner = trim(value);
        let encoded = match without_prefix(inner, BUNDLE_PREFIX) {
            Some(encoded) => encoded,
            None => {
                return Err(PairingError::InvalidPrefix);
            },
        };
        let payload = match decode_url(encoded) {
            Ok(payload) => payload,
            Err(_) => {
                return Err(PairingError::InvalidEncoding);
            },
        };
        if payload.len() > MAX_BUNDLE_BYTES {
            return Err(PairingError::BundleTooLarge);
        }
        Ok(payload)
    }

    /// The bundle that the content of a text stands for, or why the content could
    /// not be read.
    pub fn from_payload(payload: Result<PairingPayload, String>) -> (result: Result<
        PairingBundle,
        PairingError,
    >)
        ensures
            bundle_outcome(result) == decoded_bundle(payload),
    {
        let payload = match payload {
            Ok(payload) => payload,
            Err(reason) => {
                return Err(PairingError::InvalidPayload(reason));
            },
        };
        if payload.version != BUNDLE_VERSION {
            return Err(PairingError::UnsupportedVersion(payload.version));
        }
        let trust_anchor = match decode_standard(payload.trust_anchor.as_str()) {
            Ok(trust_anchor) => trust_anchor,
            Err(_) => {
                return Err(PairingError::InvalidCertificateEncoding);
            },
        };
        if trust_anchor.is_empty() || trust_anchor.len() > MAX_CERTIFICATE_BYTES {
            return Err(
                PairingError::InvalidCertificateLength {
                    actual: trust_anchor.len(),
                    maximum: MAX_CERTIFICATE_BYTES,
                },
            );
        }
        Ok(PairingBundle::new(payload.node, trust_anchor))
    }

    /// Reads a bundle from the text that it was handed over as. `parse` reads
    /// the JSON content of the text, or says why it cannot.
    pub fn decode<P: Fn(&[u8]) -> Result<PairingPayload, String>>(value: &str, parse: P) -> (result:
        Result<PairingBundle, PairingError>)
        requires
            forall|content: &[u8]| #[trigger] parse.requires((content,)),
        ensures
            match carried_payload(value@) {
                Err(error) => result == Err::<PairingBundle, PairingError>(error),
                Ok(carried) => exists|content: &[u8], payload: Result<PairingPayload, String>|
                    content@ == carried && #[trigger] parse.ensures((content,), payload)
                        && bundle_outcome(result) == decoded_bundle(payload),
            },
    {
        let content = match PairingBundle::payload_of(value) {
            Ok(content) => content,
            Err(error) => {
                return Err(error);
            },
        };
        let payload = parse(content.as_slice());
        PairingBundle::from_payload(payload)
    }
}

impl Clone for PairingBundle {
    fn clone(&self) -> (copy: PairingBundle)
        ensures
            copy@ == self@,
    {
        proof {
            use_type_invariant(self);
        }
        let trust_anchor = copy_bytes(self.trust_anchor.as_slice());
        PairingBundle { node: self.node.clone(), trust_anchor }
    }
}

/// The same bytes.
pub fn copy_bytes(bytes: &[u8]) -> (copy: Vec<u8>)
    ensures
        copy@ == bytes@,
{
    let mut copy: Vec<u8> = Vec::new();
    let mut index: usize = 0;
    while index < bytes.len()
        invariant
            index <= bytes@.len(),
            copy@ == bytes@.take(index as int),
        decreases bytes@.len() - index,
    {
        copy.push(bytes[index]);
        assert(copy@ =~= bytes@.take(index + 1));
        index += 1;
    }
    assert(copy@ =~= bytes@);
    copy
}

/// What follows `prefix` in a text that begins with it.
pub fn without_prefix<'a>(text: &'a str, prefix: &str) -> (rest: Option<&'a str>)
    ensures
        match rest {
            Some(rest) => has_prefix(text@, prefix@) && rest@ == text@.skip(prefix@.len() as int),
            None => !has_prefix(text@, prefix@),
        },
{
    let characters = chars_of(text);
    let expected = chars_of(prefix);
    let count: usize = expected.len();
    if characters.len() < count {
        return None;
    }
    let mut index: usize = 0;
    while index < count
        invariant
            index <= count <= characters@.len(),
            count == expected@.len(),
            characters@ == text@,
            expected@ == prefix@,
            forall|i: int| 0 <= i < index ==> #[trigger] characters@[i] == expected@[i],
        decreases count - index,
    {
        if characters[index] != expected[index] {
            assert(text@.take(count as int)[index as int] != prefix@[index as int]);
            return None;
        }
        index += 1;
    }
    assert(text@.take(count as int) =~= prefix@);
    let rest = text.substring_char(count, characters.len());
    assert(rest@ =~= text@.skip(count as int));
    Some(rest)
}

proof fn lemma_json_length(bundle: BundleView, anchor: Seq<char>)
    requires
        anchor == crate::encoding::standard_base64(bundle.trust_anchor),
        crate::encoding::is_plain(anchor),
        crate::domain::identity::is_node_id(vstd::utf8::encode_utf8(bundle.node)),
    ensures
        vstd::utf8::encode_utf8(bundle_json(bundle)).len() <= anchor.len() + 150,
{
    reveal_strlit("{\"version\":1,\"node\":\"");
    reveal_strlit("\",\"trust_anchor\":\"");
    reveal_strlit("\"}");
    let json = bundle_json(bundle);
    lemma_node_is_ascii(bundle.node);
    assert(vstd::utf8::is_ascii_chars(json)) by {
        assert forall|i: int| 0 <= i < json.len() implies '\0' <= #[trigger] json[i]
            <= '\u{7f}' by {
            let a = "{\"version\":1,\"node\":\""@;
            let b = a + bundle.node;
            let c = b + "\",\"trust_anchor\":\""@;
            let d = c + anchor;
            if i < a.len() {
            } else if i < b.len() {
                assert(json[i] == bundle.node[i - a.len()]);
            } else if i < c.len() {
            } else if i < d.len() {
                assert(json[i] == anchor[i - c.len()]);
            }
        }
    }
    vstd::utf8::is_ascii_chars_encode_utf8(json);
}

/// A node identifier has one byte per character.
pub proof fn lemma_node_is_ascii(node: Seq<char>)
    requires
        crate::domain::identity::is_node_id(vstd::utf8::encode_utf8(node)),
    ensures
        vstd::utf8::is_ascii_chars(node),
        node.len() == vstd::utf8::encode_utf8(node).len(),
{
    let bytes = vstd::utf8::encode_utf8(node);
    lemma_ascii_bytes_are_ascii_text(node);
    vstd::utf8::is_ascii_chars_encode_utf8(node);
}

/// A character is its Unicode scalar value.
proof fn lemma_scalar_of(c: char)
    ensures
        (c as u32) as int == c as int,
{
}

/// A text whose bytes are all ASCII is ASCII.
proof fn lemma_ascii_bytes_are_ascii_text(text: Seq<char>)
    requires
        forall|i: int|
            0 <= i < vstd::utf8::encode_utf8(text).len() ==> #[trigger] vstd::utf8::encode_utf8(
                text,
            )[i] < 0x80,
    ensures
        vstd::utf8::is_ascii_chars(text),
    decreases text.len(),
{
    if text.len() > 0 {
        let bytes = vstd::utf8::encode_utf8(text);
        let first = vstd::utf8::encode_scalar(text[0] as u32);
        let rest = text.drop_first();
        assert(bytes == first + vstd::utf8::encode_utf8(rest));
        assert(bytes[0] == first[0]);
        let scalar = text[0] as u32;
        assert((0xC0u8 | ((scalar >> 6) & 0x1F) as u8) >= 0x80) by (bit_vector);
        assert((0xE0u8 | ((scalar >> 12) & 0x0F) as u8) >= 0x80) by (bit_vector);
        assert((0xF0u8 | ((scalar >> 18) & 0x7) as u8) >= 0x80) by (bit_vector);
        assert(scalar <= 0x7f);
        lemma_scalar_of(text[0]);
        assert forall|i: int|
            0 <= i < vstd::utf8::encode_utf8(rest).len() implies #[trigger] vstd::utf8::encode_utf8(
            rest,
        )[i] < 0x80 by {
            assert(bytes[first.len() + i] == vstd::utf8::encode_utf8(rest)[i]);
        }
        lemma_ascii_bytes_are_ascii_text(rest);
        assert forall|i: int| 0 <= i < text.len() implies '\0' <= #[trigger] text[i]
            <= '\u{7f}' by {
            if i > 0 {
                assert(rest[i - 1] == text[i]);
            }
        }
    }
}

/// What stands behind the prefix of a handed over text is its content.
proof fn lemma_bundle_text_is_read_back(content: Seq<char>, payload: Seq<u8>)
    requires
        crate::encoding::is_plain(content),
        content.len() <= 40_000,
        crate::encoding::url_base64_bytes(content) == Some(payload),
        payload.len() <= MAX_BUNDLE_BYTES,
    ensures
        carried_payload(BUNDLE_PREFIX@ + content) == Ok::<Seq<u8>, PairingError>(payload),
{
    reveal_strlit("tevir-pair-v1.");
    let text = BUNDLE_PREFIX@ + content;
    assert(crate::encoding::is_plain(text));
    crate::encoding::lemma_plain_text_length(text);
    crate::text::law_trimming_keeps_tight_text(text);
    assert(text.take(BUNDLE_PREFIX@.len() as int) =~= BUNDLE_PREFIX@);
    assert(text.skip(BUNDLE_PREFIX@.len() as int) =~= content);
}

/// A code that people compare when they pair two nodes.
#[derive(Debug, PartialEq, Eq)]
pub struct PairingCode(String);

impl View for PairingCode {
    type V = Seq<char>;

    closed spec fn view(&self) -> Seq<char> {
        self.0@
    }
}

/// The code of a certificate with this digest: its first twelve bytes in
/// hexadecimal, in groups of two.
pub open spec fn code_text(digest: Seq<u8>) -> Seq<char> {
    crate::encoding::hex_groups(digest.take(CODE_BYTES as int))
}

/// ASCII white space.
pub open spec fn is_ascii_space(c: char) -> bool {
    c == ' ' || c == '\t' || c == '\n' || c == '\u{c}' || c == '\r'
}

/// The character in ASCII upper case.
pub open spec fn ascii_upper(c: char) -> char {
    if 'a' <= c <= 'z' {
        ((c as int) - 0x20) as char
    } else {
        c
    }
}

/// What of a typed code counts: no white space, no hyphens, and letters without
/// regard to their case.
pub open spec fn normalized(text: Seq<char>) -> Seq<char>
    decreases text.len(),
{
    if text.len() == 0 {
        Seq::empty()
    } else {
        let rest = normalized(text.drop_last());
        if is_ascii_space(text.last()) || text.last() == '-' {
            rest
        } else {
            rest.push(ascii_upper(text.last()))
        }
    }
}

/// The text without hyphens.
pub open spec fn without_hyphens(text: Seq<char>) -> Seq<char>
    decreases text.len(),
{
    if text.len() == 0 {
        Seq::empty()
    } else {
        let rest = without_hyphens(text.drop_last());
        if text.last() == '-' {
            rest
        } else {
            rest.push(text.last())
        }
    }
}

fn upper(c: char) -> (result: char)
    ensures
        result == ascii_upper(c),
{
    if c >= 'a' && c <= 'z' {
        ((c as u8) - 0x20) as char
    } else {
        c
    }
}

impl PairingCode {
    fn from_certificate(certificate: &[u8]) -> (code: PairingCode)
        ensures
            code@ == code_text(crate::digest::sha256_of(certificate@)),
    {
        let digest = certificate_fingerprint(certificate);
        PairingCode(hex_group_text(&digest, CODE_BYTES))
    }

    /// Whether a typed code is this one, whatever its case and spacing.
    pub fn matches(&self, candidate: &str) -> (result: bool)
        ensures
            result == (normalized(candidate@) == without_hyphens(self@)),
    {
        let typed = chars_of(candidate);
        let mut wanted: Vec<char> = Vec::new();
        let mut index: usize = 0;
        while index < typed.len()
            invariant
                index <= typed@.len(),
                wanted@ == normalized(typed@.take(index as int)),
            decreases typed@.len() - index,
        {
            let c = typed[index];
            assert(typed@.take(index + 1).drop_last() =~= typed@.take(index as int));
            if !(c == ' ' || c == '\t' || c == '\n' || c == '\u{c}' || c == '\r') && c != '-' {
                wanted.push(upper(c));
            }
            index += 1;
        }
        assert(typed@.take(index as int) =~= candidate@);
        let shown = chars_of(self.0.as_str());
        let mut expected: Vec<char> = Vec::new();
        let mut position: usize = 0;
        while position < shown.len()
            invariant
                position <= shown@.len(),
                expected@ == without_hyphens(shown@.take(position as int)),
            decreases shown@.len() - position,
        {
            assert(shown@.take(position + 1).drop_last() =~= shown@.take(position as int));
            if shown[position] != '-' {
                expected.push(shown[position]);
            }
            position += 1;
        }
        assert(shown@.take(position as int) =~= self@);
        same_characters(&wanted, &expected)
    }

    pub fn as_str(&self) -> (text: &str)
        ensures
            text@ == self@,
    {
        self.0.as_str()
    }
}

fn same_characters(a: &Vec<char>, b: &Vec<char>) -> (result: bool)
    ensures
        result == (a@ == b@),
{
    if a.len() != b.len() {
        return false;
    }
    let mut index: usize = 0;
    while index < a.len()
        invariant
            index <= a@.len(),
            a@.len() == b@.len(),
            forall|i: int| 0 <= i < index ==> #[trigger] a@[i] == b@[i],
        decreases a@.len() - index,
    {
        if a[index] != b[index] {
            assert(a@[index as int] != b@[index as int]);
            return false;
        }
        index += 1;
    }
    assert(a@ =~= b@);
    true
}

/// The digest by which a certificate is known.
pub fn certificate_fingerprint(certificate: &[u8]) -> (fingerprint: [u8; 32])
    ensures
        fingerprint@ == crate::digest::sha256_of(certificate@),
{
    sha256(certificate)
}

/// Why a pairing bundle is refused.
#[derive(Debug, PartialEq, Eq)]
pub enum PairingError {
    InvalidPrefix,
    BundleTooLarge,
    InvalidEncoding,
    InvalidPayload(String),
    UnsupportedVersion(u8),
    InvalidCertificateEncoding,
    InvalidCertificateLength { actual: usize, maximum: usize },
}

/// The character in ASCII lower case.
pub open spec fn ascii_lower(c: char) -> char {
    if 'A' <= c <= 'Z' {
        ((c as int) + 0x20) as char
    } else {
        c
    }
}

/// The text in ASCII lower case.
pub open spec fn lowered(text: Seq<char>) -> Seq<char> {
    text.map_values(|c: char| ascii_lower(c))
}

/// The text consists of upper case hexadecimal digits and hyphens.
pub open spec fn is_code_like(text: Seq<char>) -> bool {
    forall|i: int|
        0 <= i < text.len() ==> '0' <= #[trigger] text[i] <= '9' || 'A' <= text[i] <= 'F'
            || text[i] == '-'
}

proof fn lemma_hex_groups_are_code_like(bytes: Seq<u8>)
    ensures
        is_code_like(crate::encoding::hex_groups(bytes)),
    decreases bytes.len(),
{
    if bytes.len() > 0 {
        lemma_hex_groups_are_code_like(bytes.drop_last());
    }
}

proof fn lemma_code_like_text_is_normal(text: Seq<char>)
    requires
        is_code_like(text),
    ensures
        normalized(text) == without_hyphens(text),
        normalized(lowered(text)) == without_hyphens(text),
        is_code_like(without_hyphens(text)),
        normalized(lowered(without_hyphens(text))) == without_hyphens(text),
    decreases text.len(),
{
    if text.len() > 0 {
        let rest = text.drop_last();
        lemma_code_like_text_is_normal(rest);
        assert(lowered(text).drop_last() =~= lowered(rest));
        assert(lowered(text).last() == ascii_lower(text.last()));
        if text.last() != '-' {
            let kept = without_hyphens(text);
            assert(lowered(kept).drop_last() =~= lowered(without_hyphens(rest)));
            assert(lowered(kept).last() == ascii_lower(text.last()));
            assert(ascii_upper(ascii_lower(text.last())) == text.last());
        }
    } else {
        assert(lowered(text) =~= Seq::<char>::empty());
        assert(lowered(without_hyphens(text)) =~= Seq::<char>::empty());
    }
}

/// A code is matched by itself, by itself in lower case, and by either without
/// the hyphens.
pub proof fn law_codes_match_readable_variants(digest: Seq<u8>)
    requires
        digest.len() == 32,
    ensures
        ({
            let code = code_text(digest);
            &&& normalized(code) == without_hyphens(code)
            &&& normalized(lowered(code)) == without_hyphens(code)
            &&& normalized(without_hyphens(code)) == without_hyphens(code)
            &&& normalized(lowered(without_hyphens(code))) == without_hyphens(code)
        }),
{
    lemma_hex_groups_are_code_like(digest.take(CODE_BYTES as int));
    let code = code_text(digest);
    lemma_code_like_text_is_normal(code);
    lemma_code_like_text_is_normal(without_hyphens(code));
    lemma_without_hyphens_is_idempotent(code);
}

proof fn lemma_without_hyphens_is_idempotent(text: Seq<char>)
    ensures
        without_hyphens(without_hyphens(text)) == without_hyphens(text),
    decreases text.len(),
{
    if text.len() > 0 {
        let rest = text.drop_last();
        lemma_without_hyphens_is_idempotent(rest);
        if text.last() != '-' {
            assert(without_hyphens(text).drop_last() =~= without_hyphens(rest));
        }
    }
}

proof fn lemma_digits_of_groups(bytes: Seq<u8>)
    requires
        bytes.len() > 0,
    ensures
        without_hyphens(crate::encoding::hex_groups(bytes)) == without_hyphens(
            crate::encoding::hex_groups(bytes.drop_last()),
        ).push(crate::encoding::upper_hex((bytes.last() / 16) as int)).push(
            crate::encoding::upper_hex((bytes.last() % 16) as int),
        ),
{
    let rest = crate::encoding::hex_groups(bytes.drop_last());
    let separated = if bytes.len() > 1 && bytes.len() % 2 == 1 {
        rest.push('-')
    } else {
        rest
    };
    let high = crate::encoding::upper_hex((bytes.last() / 16) as int);
    let low = crate::encoding::upper_hex((bytes.last() % 16) as int);
    assert(rest.push('-').drop_last() =~= rest);
    assert(without_hyphens(separated) == without_hyphens(rest));
    assert(separated.push(high).drop_last() =~= separated);
    assert(separated.push(high).push(low).drop_last() =~= separated.push(high));
    assert(high != '-' && low != '-');
    assert(without_hyphens(separated.push(high)) == without_hyphens(separated).push(high));
    assert(without_hyphens(separated.push(high).push(low)) == without_hyphens(
        separated.push(high),
    ).push(low));
}

proof fn lemma_digits_determine_bytes(a: Seq<u8>, b: Seq<u8>)
    requires
        a.len() == b.len(),
        without_hyphens(crate::encoding::hex_groups(a)) == without_hyphens(
            crate::encoding::hex_groups(b),
        ),
    ensures
        a == b,
    decreases a.len(),
{
    if a.len() > 0 {
        lemma_digits_of_groups(a);
        lemma_digits_of_groups(b);
        let da = without_hyphens(crate::encoding::hex_groups(a));
        let db = without_hyphens(crate::encoding::hex_groups(b));
        let ra = without_hyphens(crate::encoding::hex_groups(a.drop_last()));
        let rb = without_hyphens(crate::encoding::hex_groups(b.drop_last()));
        assert(da[da.len() - 1] == db[db.len() - 1]);
        assert(da[da.len() - 2] == db[db.len() - 2]);
        assert(ra =~= rb) by {
            assert(da.len() == ra.len() + 2);
            assert(db.len() == rb.len() + 2);
            assert forall|i: int| 0 <= i < ra.len() implies ra[i] == rb[i] by {
                assert(da[i] == ra[i]);
                assert(db[i] == rb[i]);
            }
        }
        lemma_digits_determine_bytes(a.drop_last(), b.drop_last());
        assert(a.last() == b.last());
        assert(a =~= a.drop_last().push(a.last()));
        assert(b =~= b.drop_last().push(b.last()));
    } else {
        assert(a =~= b);
    }
}

/// A typed code that matches the codes of two certificates shows that their
/// digests begin with the same twelve bytes.
pub proof fn law_a_code_pins_the_digest(a: Seq<u8>, b: Seq<u8>, typed: Seq<char>)
    requires
        a.len() == 32,
        b.len() == 32,
        normalized(typed) == without_hyphens(code_text(a)),
        normalized(typed) == without_hyphens(code_text(b)),
    ensures
        a.take(CODE_BYTES as int) == b.take(CODE_BYTES as int),
{
    lemma_digits_determine_bytes(a.take(CODE_BYTES as int), b.take(CODE_BYTES as int));
}

impl PairingError {
    /// The error in words.
    pub open spec fn text(self) -> Seq<char> {
        match self {
            PairingError::InvalidPrefix => "pairing bundle has an invalid prefix"@,
            PairingError::BundleTooLarge => "pairing bundle exceeds the size limit"@,
            PairingError::InvalidEncoding => "pairing bundle is not valid base64"@,
            PairingError::InvalidPayload(reason) => {
                "pairing bundle payload is invalid: "@ + reason@
            },
            PairingError::UnsupportedVersion(version) => {
                "pairing bundle version "@ + crate::text::decimal(version as nat)
                    + " is not supported"@
            },
            PairingError::InvalidCertificateEncoding => "pairing certificate is not valid base64"@,
            PairingError::InvalidCertificateLength { actual, maximum } => {
                "pairing certificate is "@ + crate::text::decimal(actual as nat)
                    + " bytes; the allowed range is 1..="@ + crate::text::decimal(maximum as nat)
            },
        }
    }

    /// The error in words.
    pub fn message(&self) -> (message: String)
        ensures
            message@ == self.text(),
    {
        let mut message = String::new();
        match self {
            PairingError::InvalidPrefix => message.append("pairing bundle has an invalid prefix"),
            PairingError::BundleTooLarge => {
                message.append("pairing bundle exceeds the size limit");
            },
            PairingError::InvalidEncoding => message.append("pairing bundle is not valid base64"),
            PairingError::InvalidPayload(reason) => {
                message.append("pairing bundle payload is invalid: ");
                message.append(reason.as_str());
            },
            PairingError::UnsupportedVersion(version) => {
                message.append("pairing bundle version ");
                push_decimal(&mut message, *version as u64);
                message.append(" is not supported");
            },
            PairingError::InvalidCertificateEncoding => {
                message.append("pairing certificate is not valid base64");
            },
            PairingError::InvalidCertificateLength { actual, maximum } => {
                message.append("pairing certificate is ");
                push_decimal(&mut message, *actual as u64);
                message.append(" bytes; the allowed range is 1..=");
                push_decimal(&mut message, *maximum as u64);
            },
        }
        assert(message@ =~= self.text());
        message
    }
}

} // verus!
