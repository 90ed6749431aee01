//! The records that nodes announce themselves with.

use vstd::prelude::*;
use vstd::string::*;

use crate::digest::same_digest;
use crate::discovery::address::{usable_addresses, IpAddress};
use crate::domain::host::HostPlatform;
use crate::domain::identity::{NodeId, NodeIdError};
use crate::encoding::lower_hex_digit;
use crate::identity::pairing::{PairingBundle, PairingError, PairingPayload};
use crate::platform::report::equal_ignoring_case;
use crate::protocol::message::{Capabilities, CURRENT_PROTOCOL_MAJOR, CURRENT_PROTOCOL_MINOR};
use crate::text::{chars_of, decimal_text, parse_u32, push_decimal, same_text};

verus! {

pub const SERVICE_TYPE: &'static str = "_tevir-pair._udp.local.";

pub const BUNDLE_CHUNK_BYTES: usize = 220;

pub const MAX_BUNDLE_CHUNKS: usize = 8;

/// The largest bundle text that a record has room for.
pub const MAX_ADVERTISED_BUNDLE_BYTES: usize = 1760;

pub const PROPERTY_NODE: &'static str = "node";

pub const PROPERTY_PROTOCOL: &'static str = "protocol";

pub const PROPERTY_PLATFORM: &'static str = "platform";

pub const PROPERTY_CAPABILITIES: &'static str = "capabilities";

pub const PROPERTY_FINGERPRINT: &'static str = "fingerprint";

pub const PROPERTY_BUNDLE_CHUNKS: &'static str = "bundle-chunks";

pub const PROPERTY_BUNDLE_PREFIX: &'static str = "bundle-";

/// A record as it was resolved: its properties as text, in whatever case their
/// keys were announced, and the addresses that the host answers on.
#[derive(Debug)]
pub struct ServiceRecord {
    pub fullname: String,
    pub properties: Vec<(String, String)>,
    pub addresses: Vec<IpAddress>,
}

pub open spec fn property_views(properties: Seq<(String, String)>) -> Seq<
    (Seq<char>, Seq<char>),
> {
    properties.map_values(|property: (String, String)| (property.0@, property.1@))
}

/// The value of the first property with this key, in upper or lower case, from
/// `from` on. An empty value counts as none.
pub open spec fn property_from(
    properties: Seq<(Seq<char>, Seq<char>)>,
    key: Seq<char>,
    from: int,
) -> Option<Seq<char>>
    decreases properties.len() - from,
{
    if from < 0 || from >= properties.len() {
        None
    } else if crate::platform::report::same_ignoring_case(properties[from].0, key) {
        if properties[from].1.len() == 0 {
            None
        } else {
            Some(properties[from].1)
        }
    } else {
        property_from(properties, key, from + 1)
    }
}

/// The value of the first property with this key, in upper or lower case. An
/// empty value counts as none.
pub open spec fn property_value(properties: Seq<(Seq<char>, Seq<char>)>, key: Seq<char>) -> Option<
    Seq<char>,
> {
    property_from(properties, key, 0)
}

fn property<'a>(properties: &'a Vec<(String, String)>, key: &str) -> (value: Option<&'a str>)
    ensures
        match value {
            Some(value) => property_value(property_views(properties@), key@) == Some(value@),
            None => property_value(property_views(properties@), key@) is None,
        },
{
    let ghost views = property_views(properties@);
    let mut index: usize = 0;
    while index < properties.len()
        invariant
            index <= properties@.len(),
            views == property_views(properties@),
            property_value(views, key@) == property_from(views, key@, index as int),
        decreases properties@.len() - index,
    {
        let entry = &properties[index];
        assert(views[index as int] == (entry.0@, entry.1@));
        if equal_ignoring_case(entry.0.as_str(), key) {
            if entry.1.as_str().is_empty() {
                return None;
            }
            return Some(entry.1.as_str());
        }
        index += 1;
    }
    None
}

/// The version that records are announced with.
pub open spec fn protocol_text() -> Seq<char> {
    crate::text::decimal(CURRENT_PROTOCOL_MAJOR as nat) + seq!['.'] + crate::text::decimal(
        CURRENT_PROTOCOL_MINOR as nat,
    )
}

fn current_protocol() -> (text: String)
    ensures
        text@ == protocol_text(),
{
    let mut text = decimal_text(CURRENT_PROTOCOL_MAJOR as u64);
    text.push('.');
    push_decimal(&mut text, CURRENT_PROTOCOL_MINOR as u64);
    assert(text@ =~= protocol_text());
    text
}

/// Checks that a record speaks the current protocol.
pub fn verify_protocol(value: &str) -> (result: Result<(), RecordError>)
    ensures
        match result {
            Ok(()) => value@ == protocol_text(),
            Err(error) => value@ != protocol_text() && error@ == RecordFault::UnsupportedProtocol(
                value@,
            ),
        },
{
    let expected = current_protocol();
    if same_text(value, expected.as_str()) {
        Ok(())
    } else {
        Err(RecordError::UnsupportedProtocol(value.to_owned()))
    }
}

/// The name of a platform in a record.
pub open spec fn platform_text(platform: HostPlatform) -> Seq<char> {
    match platform {
        HostPlatform::LinuxWayland => "linux-wayland"@,
        HostPlatform::Windows => "windows"@,
    }
}

pub fn platform_name(platform: HostPlatform) -> (name: &'static str)
    ensures
        name@ == platform_text(platform),
{
    match platform {
        HostPlatform::LinuxWayland => "linux-wayland",
        HostPlatform::Windows => "windows",
    }
}

/// The platform of this name.
pub open spec fn named_platform(name: Seq<char>) -> Option<HostPlatform> {
    if name == platform_text(HostPlatform::LinuxWayland) {
        Some(HostPlatform::LinuxWayland)
    } else if name == platform_text(HostPlatform::Windows) {
        Some(HostPlatform::Windows)
    } else {
        None
    }
}

pub fn parse_platform(value: &str) -> (result: Result<HostPlatform, RecordError>)
    ensures
        match result {
            Ok(platform) => named_platform(value@) == Some(platform),
            Err(error) => named_platform(value@) is None && error@
                == RecordFault::UnsupportedPlatform(value@),
        },
{
    if same_text(value, "linux-wayland") {
        Ok(HostPlatform::LinuxWayland)
    } else if same_text(value, "windows") {
        Ok(HostPlatform::Windows)
    } else {
        Err(RecordError::UnsupportedPlatform(value.to_owned()))
    }
}

/// One bit per capability, the keyboard in the lowest.
pub open spec fn bits_of(capabilities: Capabilities) -> int {
    (if capabilities.keyboard {
        1int
    } else {
        0
    }) + (if capabilities.relative_pointer {
        2int
    } else {
        0
    }) + (if capabilities.absolute_pointer {
        4int
    } else {
        0
    }) + (if capabilities.clipboard_text {
        8int
    } else {
        0
    })
}

/// The capabilities that these bits stand for.
pub open spec fn capabilities_of(bits: int) -> Capabilities {
    Capabilities {
        keyboard: bits % 2 == 1,
        relative_pointer: bits / 2 % 2 == 1,
        absolute_pointer: bits / 4 % 2 == 1,
        clipboard_text: bits / 8 % 2 == 1,
    }
}

pub fn capability_bits(capabilities: Capabilities) -> (bits: u8)
    ensures
        bits == bits_of(capabilities),
        bits < 16,
        capabilities_of(bits as int) == capabilities,
{
    let mut bits: u8 = 0;
    if capabilities.keyboard {
        bits = bits + 1;
    }
    if capabilities.relative_pointer {
        bits = bits + 2;
    }
    if capabilities.absolute_pointer {
        bits = bits + 4;
    }
    if capabilities.clipboard_text {
        bits = bits + 8;
    }
    bits
}

/// The capabilities that a record announces: a number of four bits.
pub open spec fn announced_capabilities(text: Seq<char>) -> Option<Capabilities> {
    match crate::text::parsed_u32(text) {
        Ok(bits) => if bits < 16 {
            Some(capabilities_of(bits as int))
        } else {
            None
        },
        Err(_) => None,
    }
}

pub fn parse_capabilities(value: &str) -> (result: Result<Capabilities, RecordError>)
    ensures
        match result {
            Ok(capabilities) => announced_capabilities(value@) == Some(capabilities),
            Err(error) => announced_capabilities(value@) is None && error@
                == RecordFault::InvalidCapabilities,
        },
{
    let bits: u32 = match parse_u32(value) {
        Ok(bits) => bits,
        Err(_) => {
            return Err(RecordError::InvalidCapabilities);
        },
    };
    if bits >= 16 {
        return Err(RecordError::InvalidCapabilities);
    }
    Ok(
        Capabilities {
            keyboard: bits % 2 == 1,
            relative_pointer: bits / 2 % 2 == 1,
            absolute_pointer: bits / 4 % 2 == 1,
            clipboard_text: bits / 8 % 2 == 1,
        },
    )
}

/// Two lower case hexadecimal digits per byte.
pub open spec fn fingerprint_text(fingerprint: Seq<u8>) -> Seq<char> {
    Seq::new(
        2 * fingerprint.len(),
        |i: int|
            if i % 2 == 0 {
                crate::encoding::lower_hex((fingerprint[i / 2] / 16) as int)
            } else {
                crate::encoding::lower_hex((fingerprint[i / 2] % 16) as int)
            },
    )
}

pub fn encode_fingerprint(fingerprint: &[u8; 32]) -> (text: String)
    ensures
        text@ == fingerprint_text(fingerprint@),
{
    let mut text = String::new();
    let mut index: usize = 0;
    while index < 32
        invariant
            index <= 32,
            text@ == fingerprint_text(fingerprint@).take(2 * index),
        decreases 32 - index,
    {
        let byte: u8 = fingerprint[index];
        text.push(lower_hex_digit(byte / 16));
        text.push(lower_hex_digit(byte % 16));
        assert(text@ =~= fingerprint_text(fingerprint@).take(2 * (index + 1)));
        index += 1;
    }
    assert(fingerprint_text(fingerprint@).take(64) =~= fingerprint_text(fingerprint@));
    text
}

/// The value of a hexadecimal digit of either case.
pub open spec fn hex_value(c: char) -> Option<int> {
    if '0' <= c <= '9' {
        Some(c as int - 0x30)
    } else if 'a' <= c <= 'f' {
        Some(c as int - 0x61 + 10)
    } else if 'A' <= c <= 'F' {
        Some(c as int - 0x41 + 10)
    } else {
        None
    }
}

/// The value of two hexadecimal digits. A plus sign may stand for the first.
pub open spec fn pair_value(first: char, second: char) -> Option<int> {
    match hex_value(second) {
        None => None,
        Some(low) => if first == '+' {
            Some(low)
        } else {
            match hex_value(first) {
                None => None,
                Some(high) => Some(16 * high + low),
            }
        },
    }
}

/// The text is made of 32 pairs that have a value each.
pub open spec fn is_fingerprint_text(text: Seq<char>) -> bool {
    text.len() == 64 && forall|i: int|
        0 <= i < 32 ==> #[trigger] pair_value(text[2 * i], text[2 * i + 1]) is Some
}

/// The digest that a text of hexadecimal digits stands for.
pub open spec fn announced_fingerprint(text: Seq<char>) -> Option<Seq<u8>> {
    if is_fingerprint_text(text) {
        Some(Seq::new(32, |i: int| pair_value(text[2 * i], text[2 * i + 1])->0 as u8))
    } else {
        None
    }
}

fn hex_digit_value(character: char) -> (value: Option<u8>)
    ensures
        match value {
            Some(value) => value < 16 && hex_value(character) == Some(value as int),
            None => hex_value(character) is None,
        },
{
    if character >= '0' && character <= '9' {
        Some((character as u32 - 0x30) as u8)
    } else if character >= 'a' && character <= 'f' {
        Some((character as u32 - 0x61 + 10) as u8)
    } else if character >= 'A' && character <= 'F' {
        Some((character as u32 - 0x41 + 10) as u8)
    } else {
        None
    }
}

pub fn parse_fingerprint(value: &str) -> (result: Result<[u8; 32], RecordError>)
    ensures
        match result {
            Ok(fingerprint) => announced_fingerprint(value@) == Some(fingerprint@),
            Err(error) => announced_fingerprint(value@) is None && error@
                == RecordFault::InvalidFingerprint,
        },
{
    let characters = chars_of(value);
    if characters.len() != 64 {
        return Err(RecordError::InvalidFingerprint);
    }
    let mut fingerprint: [u8; 32] = [0u8; 32];
    let mut index: usize = 0;
    while index < 32
        invariant
            index <= 32,
            characters@ == value@,
            characters@.len() == 64,
            forall|i: int|
                0 <= i < index ==> #[trigger] pair_value(value@[2 * i], value@[2 * i + 1]) == Some(
                    fingerprint@[i] as int,
                ),
        decreases 32 - index,
    {
        let first = characters[2 * index];
        let second = characters[2 * index + 1];
        let ghost pair = pair_value(value@[2 * index as int], value@[2 * index as int + 1]);
        let low: u8 = match hex_digit_value(second) {
            Some(low) => low,
            None => {
                assert(pair is None);
                return Err(RecordError::InvalidFingerprint);
            },
        };
        let byte: u8 = if first == '+' {
            low
        } else {
            match hex_digit_value(first) {
                Some(high) => 16 * high + low,
                None => {
                    assert(pair is None);
                    return Err(RecordError::InvalidFingerprint);
                },
            }
        };
        fingerprint[index] = byte;
        index += 1;
    }
    proof {
        assert(is_fingerprint_text(value@));
        assert(announced_fingerprint(value@)->0 =~= fingerprint@);
    }
    Ok(fingerprint)
}

/// The key of a part of the bundle text.
pub open spec fn chunk_key(index: nat) -> Seq<char> {
    PROPERTY_BUNDLE_PREFIX@ + crate::text::decimal(index)
}

fn chunk_property(index: usize) -> (key: String)
    ensures
        key@ == chunk_key(index as nat),
{
    let mut key = String::new();
    key.append(PROPERTY_BUNDLE_PREFIX);
    push_decimal(&mut key, index as u64);
    assert(key@ =~= chunk_key(index as nat));
    key
}

/// The first `count` parts of the bundle text, one after the other.
pub open spec fn joined_chunks(properties: Seq<(Seq<char>, Seq<char>)>, count: nat) -> Result<
    Seq<char>,
    RecordFault,
>
    decreases count,
{
    if count == 0 {
        Ok(Seq::empty())
    } else {
        let index = (count - 1) as nat;
        match joined_chunks(properties, index) {
            Err(fault) => Err(fault),
            Ok(text) => match property_value(properties, chunk_key(index)) {
                None => Err(RecordFault::MissingBundleChunk(index)),
                Some(chunk) => if vstd::utf8::encode_utf8(chunk).len() > BUNDLE_CHUNK_BYTES {
                    Err(RecordFault::BundleChunkTooLarge(index))
                } else {
                    Ok(text + chunk)
                },
            },
        }
    }
}

/// What a record says, before its bundle is read.
#[derive(Debug)]
pub struct RecordClaims {
    pub node: NodeId,
    pub platform: HostPlatform,
    pub capabilities: Capabilities,
    pub fingerprint: [u8; 32],
    pub bundle: String,
}

pub ghost struct ClaimsView {
    pub node: Seq<char>,
    pub platform: HostPlatform,
    pub capabilities: Capabilities,
    pub fingerprint: Seq<u8>,
    pub bundle: Seq<char>,
}

impl View for RecordClaims {
    type V = ClaimsView;

    open spec fn view(&self) -> ClaimsView {
        ClaimsView {
            node: self.node@,
            platform: self.platform,
            capabilities: self.capabilities,
            fingerprint: self.fingerprint@,
            bundle: self.bundle@,
        }
    }
}

/// The number of parts that a record announces its bundle in.
pub open spec fn announced_chunks(text: Seq<char>) -> Option<nat> {
    match crate::text::parsed_u32(text) {
        Ok(count) => if 0 < count <= MAX_BUNDLE_CHUNKS {
            Some(count as nat)
        } else {
            None
        },
        Err(_) => None,
    }
}

/// What the bundle of a record is, the rest being known.
pub open spec fn bundle_claim(
    properties: Seq<(Seq<char>, Seq<char>)>,
    node: Seq<char>,
    platform: HostPlatform,
    capabilities: Capabilities,
    fingerprint: Seq<u8>,
) -> Result<ClaimsView, RecordFault> {
    match property_value(properties, PROPERTY_BUNDLE_CHUNKS@) {
        None => Err(RecordFault::MissingProperty(PROPERTY_BUNDLE_CHUNKS@)),
        Some(text) => match announced_chunks(text) {
            None => Err(RecordFault::InvalidBundleChunkCount),
            Some(count) => match joined_chunks(properties, count) {
                Err(fault) => Err(fault),
                Ok(bundle) => Ok(
                    ClaimsView { node, platform, capabilities, fingerprint, bundle },
                ),
            },
        },
    }
}

/// What the fingerprint and the bundle of a record are, the rest being known.
pub open spec fn identity_claim(
    properties: Seq<(Seq<char>, Seq<char>)>,
    node: Seq<char>,
    platform: HostPlatform,
    capabilities: Capabilities,
) -> Result<ClaimsView, RecordFault> {
    match property_value(properties, PROPERTY_FINGERPRINT@) {
        None => Err(RecordFault::MissingProperty(PROPERTY_FINGERPRINT@)),
        Some(text) => match announced_fingerprint(text) {
            None => Err(RecordFault::InvalidFingerprint),
            Some(fingerprint) => bundle_claim(
                properties,
                node,
                platform,
                capabilities,
                fingerprint,
            ),
        },
    }
}

/// What a record of this node says.
pub open spec fn host_claim(properties: Seq<(Seq<char>, Seq<char>)>, node: Seq<char>) -> Result<
    ClaimsView,
    RecordFault,
> {
    match property_value(properties, PROPERTY_PLATFORM@) {
        None => Err(RecordFault::MissingProperty(PROPERTY_PLATFORM@)),
        Some(name) => match named_platform(name) {
            None => Err(RecordFault::UnsupportedPlatform(name)),
            Some(platform) => match property_value(properties, PROPERTY_CAPABILITIES@) {
                None => Err(RecordFault::MissingProperty(PROPERTY_CAPABILITIES@)),
                Some(text) => match announced_capabilities(text) {
                    None => Err(RecordFault::InvalidCapabilities),
                    Some(capabilities) => identity_claim(
                        properties,
                        node,
                        platform,
                        capabilities,
                    ),
                },
            },
        },
    }
}

/// What a record says, or the first thing that is wrong with it. Another version
/// is refused for that, whatever else is wrong behind it, except that a record
/// which only lacks a part of its bundle is refused for the missing part.
pub open spec fn record_claims(properties: Seq<(Seq<char>, Seq<char>)>) -> Result<
    ClaimsView,
    RecordFault,
> {
    match property_value(properties, PROPERTY_NODE@) {
        None => Err(RecordFault::MissingProperty(PROPERTY_NODE@)),
        Some(node) => if !crate::domain::identity::is_node_id(vstd::utf8::encode_utf8(node)) {
            Err(RecordFault::InvalidNode(node))
        } else {
            match property_value(properties, PROPERTY_PROTOCOL@) {
                None => Err(RecordFault::MissingProperty(PROPERTY_PROTOCOL@)),
                Some(protocol) => match host_claim(properties, node) {
                    Err(RecordFault::MissingBundleChunk(index)) => Err(
                        RecordFault::MissingBundleChunk(index),
                    ),
                    claims => if protocol != protocol_text() {
                        Err(RecordFault::UnsupportedProtocol(protocol))
                    } else {
                        claims
                    },
                },
            }
        },
    }
}

/// Why a record is refused.
#[derive(Debug, PartialEq, Eq)]
pub enum RecordError {
    MissingProperty(&'static str),
    InvalidNode(String, NodeIdError),
    UnsupportedProtocol(String),
    UnsupportedPlatform(String),
    InvalidCapabilities,
    InvalidFingerprint,
    InvalidBundleChunkCount,
    MissingBundleChunk(usize),
    BundleChunkTooLarge(usize),
    InvalidPairingBundle(PairingError),
    BundleNodeMismatch,
    FingerprintMismatch,
}

pub ghost enum RecordFault {
    MissingProperty(Seq<char>),
    InvalidNode(Seq<char>),
    UnsupportedProtocol(Seq<char>),
    UnsupportedPlatform(Seq<char>),
    InvalidCapabilities,
    InvalidFingerprint,
    InvalidBundleChunkCount,
    MissingBundleChunk(nat),
    BundleChunkTooLarge(nat),
    InvalidPairingBundle(PairingError),
    BundleNodeMismatch,
    FingerprintMismatch,
}

impl View for RecordError {
    type V = RecordFault;

    open spec fn view(&self) -> RecordFault {
        match self {
            RecordError::MissingProperty(key) => RecordFault::MissingProperty(key@),
            RecordError::InvalidNode(node, _) => RecordFault::InvalidNode(node@),
            RecordError::UnsupportedProtocol(text) => RecordFault::UnsupportedProtocol(text@),
            RecordError::UnsupportedPlatform(text) => RecordFault::UnsupportedPlatform(text@),
            RecordError::InvalidCapabilities => RecordFault::InvalidCapabilities,
            RecordError::InvalidFingerprint => RecordFault::InvalidFingerprint,
            RecordError::InvalidBundleChunkCount => RecordFault::InvalidBundleChunkCount,
            RecordError::MissingBundleChunk(index) => RecordFault::MissingBundleChunk(
                *index as nat,
            ),
            RecordError::BundleChunkTooLarge(index) => RecordFault::BundleChunkTooLarge(
                *index as nat,
            ),
            RecordError::InvalidPairingBundle(error) => RecordFault::InvalidPairingBundle(*error),
            RecordError::BundleNodeMismatch => RecordFault::BundleNodeMismatch,
            RecordError::FingerprintMismatch => RecordFault::FingerprintMismatch,
        }
    }
}

fn required<'a>(properties: &'a Vec<(String, String)>, key: &'static str) -> (result: Result<
    &'a str,
    RecordError,
>)
    ensures
        match result {
            Ok(value) => property_value(property_views(properties@), key@) == Some(value@),
            Err(error) => property_value(property_views(properties@), key@) is None && error@
                == RecordFault::MissingProperty(key@),
        },
{
    match property(properties, key) {
        Some(value) => Ok(value),
        None => Err(RecordError::MissingProperty(key)),
    }
}

fn join_chunks(properties: &Vec<(String, String)>, count: usize) -> (result: Result<
    String,
    RecordError,
>)
    ensures
        match result {
            Ok(text) => joined_chunks(property_views(properties@), count as nat) == Ok::<
                Seq<char>,
                RecordFault,
            >(text@),
            Err(error) => joined_chunks(property_views(properties@), count as nat) == Err::<
                Seq<char>,
                RecordFault,
            >(error@) && !(error is InvalidNode),
        },
{
    let ghost views = property_views(properties@);
    let mut text = String::new();
    let mut index: usize = 0;
    while index < count
        invariant
            index <= count,
            views == property_views(properties@),
            joined_chunks(views, index as nat) == Ok::<Seq<char>, RecordFault>(text@),
        decreases count - index,
    {
        let key = chunk_property(index);
        let chunk = match property(properties, key.as_str()) {
            Some(chunk) => chunk,
            None => {
                proof {
                    lemma_faults_persist(views, (index + 1) as nat, count as nat);
                }
                return Err(RecordError::MissingBundleChunk(index));
            },
        };
        if chunk.as_bytes().len() > BUNDLE_CHUNK_BYTES {
            proof {
                lemma_faults_persist(views, (index + 1) as nat, count as nat);
            }
            return Err(RecordError::BundleChunkTooLarge(index));
        }
        text.append(chunk);
        index += 1;
    }
    Ok(text)
}

/// More parts do not mend a fault in the first ones.
proof fn lemma_faults_persist(properties: Seq<(Seq<char>, Seq<char>)>, count: nat, more: nat)
    requires
        count <= more,
        joined_chunks(properties, count) is Err,
    ensures
        joined_chunks(properties, more) == joined_chunks(properties, count),
    decreases more - count,
{
    if count < more {
        lemma_faults_persist(properties, count, (more - 1) as nat);
    }
}

impl RecordClaims {
    /// What a record says, or the first thing that is wrong with it.
    pub fn read(properties: &Vec<(String, String)>) -> (result: Result<RecordClaims, RecordError>)
        ensures
            match result {
                Ok(claims) => record_claims(property_views(properties@)) == Ok::<
                    ClaimsView,
                    RecordFault,
                >(claims@),
                Err(error) => record_claims(property_views(properties@)) == Err::<
                    ClaimsView,
                    RecordFault,
                >(error@),
            },
            result matches Err(RecordError::InvalidNode(node, error)) ==> error.applies_to(
                vstd::utf8::encode_utf8(node@),
            ),
    {
        let node_text = match required(properties, PROPERTY_NODE) {
            Ok(text) => text,
            Err(error) => {
                return Err(error);
            },
        };
        let node = match NodeId::new(node_text) {
            Ok(node) => node,
            Err(error) => {
                return Err(RecordError::InvalidNode(node_text.to_owned(), error));
            },
        };
        let protocol = match required(properties, PROPERTY_PROTOCOL) {
            Ok(text) => text,
            Err(error) => {
                return Err(error);
            },
        };
        let version = verify_protocol(protocol);
        match RecordClaims::of_host(properties, node) {
            Err(RecordError::MissingBundleChunk(index)) => Err(
                RecordError::MissingBundleChunk(index),
            ),
            claims => match version {
                Ok(()) => claims,
                Err(error) => Err(error),
            },
        }
    }

    /// What a record of this node says.
    fn of_host(properties: &Vec<(String, String)>, node: NodeId) -> (result: Result<
        RecordClaims,
        RecordError,
    >)
        ensures
            match result {
                Ok(claims) => host_claim(property_views(properties@), node@) == Ok::<
                    ClaimsView,
                    RecordFault,
                >(claims@),
                Err(error) => host_claim(property_views(properties@), node@) == Err::<
                    ClaimsView,
                    RecordFault,
                >(error@),
            },
            !(result matches Err(RecordError::InvalidNode(..))),
    {
        let platform_text = match required(properties, PROPERTY_PLATFORM) {
            Ok(text) => text,
            Err(error) => {
                return Err(error);
            },
        };
        let platform = match parse_platform(platform_text) {
            Ok(platform) => platform,
            Err(error) => {
                return Err(error);
            },
        };
        let capability_text = match required(properties, PROPERTY_CAPABILITIES) {
            Ok(text) => text,
            Err(error) => {
                return Err(error);
            },
        };
        let capabilities = match parse_capabilities(capability_text) {
            Ok(capabilities) => capabilities,
            Err(error) => {
                return Err(error);
            },
        };
        let fingerprint_text = match required(properties, PROPERTY_FINGERPRINT) {
            Ok(text) => text,
            Err(error) => {
                return Err(error);
            },
        };
        let fingerprint = match parse_fingerprint(fingerprint_text) {
            Ok(fingerprint) => fingerprint,
            Err(error) => {
                return Err(error);
            },
        };
        let count_text = match required(properties, PROPERTY_BUNDLE_CHUNKS) {
            Ok(text) => text,
            Err(error) => {
                return Err(error);
            },
        };
        let count: usize = match parse_u32(count_text) {
            Ok(count) => {
                if count == 0 || count > MAX_BUNDLE_CHUNKS as u32 {
                    return Err(RecordError::InvalidBundleChunkCount);
                }
                count as usize
            },
            Err(_) => {
                return Err(RecordError::InvalidBundleChunkCount);
            },
        };
        let bundle = match join_chunks(properties, count) {
            Ok(bundle) => bundle,
            Err(error) => {
                return Err(error);
            },
        };
        Ok(RecordClaims { node, platform, capabilities, fingerprint, bundle })
    }
}

/// A node that announced itself.
#[derive(Debug, Eq)]
pub struct DiscoveredNode {
    fullname: String,
    node: NodeId,
    platform: HostPlatform,
    capabilities: Capabilities,
    addresses: Vec<IpAddress>,
    pairing_bundle: PairingBundle,
}

#[verifier::ext_equal]
pub ghost struct NodeView {
    pub fullname: Seq<char>,
    pub node: Seq<char>,
    pub platform: HostPlatform,
    pub capabilities: Capabilities,
    pub addresses: Seq<IpAddress>,
    pub bundle: crate::identity::pairing::BundleView,
}

impl NodeView {
    /// The digest of the certificate in the bundle.
    pub open spec fn fingerprint(self) -> Seq<u8> {
        crate::digest::sha256_of(self.bundle.trust_anchor)
    }
}

impl View for DiscoveredNode {
    type V = NodeView;

    closed spec fn view(&self) -> NodeView {
        NodeView {
            fullname: self.fullname@,
            node: self.node@,
            platform: self.platform,
            capabilities: self.capabilities,
            addresses: self.addresses@,
            bundle: self.pairing_bundle@,
        }
    }
}

/// Why a bundle is not what the record claims it to be.
pub open spec fn binding_fault(
    claims: ClaimsView,
    bundle: crate::identity::pairing::BundleView,
) -> Option<RecordFault> {
    if bundle.node != claims.node {
        Some(RecordFault::BundleNodeMismatch)
    } else if crate::digest::sha256_of(bundle.trust_anchor) != claims.fingerprint {
        Some(RecordFault::FingerprintMismatch)
    } else {
        None
    }
}

/// The view of what reading a record came to.
pub open spec fn is_node_outcome(
    result: Result<DiscoveredNode, RecordError>,
    fullname: Seq<char>,
    announced: Seq<IpAddress>,
    claims: ClaimsView,
    bundle: Result<crate::identity::pairing::BundleView, PairingError>,
) -> bool {
    match bundle {
        Err(error) => result matches Err(refusal) && refusal@ == RecordFault::InvalidPairingBundle(
            error,
        ),
        Ok(bundle) => match binding_fault(claims, bundle) {
            Some(fault) => result matches Err(refusal) && refusal@ == fault,
            None => result matches Ok(node) && node@.fullname == fullname && node@.node
                == claims.node && node@.platform == claims.platform && node@.capabilities
                == claims.capabilities && node@.bundle == bundle
                && crate::discovery::address::are_usable_of(node@.addresses, announced),
        },
    }
}

impl DiscoveredNode {
    #[verifier::type_invariant]
    pub open spec fn is_bound(self) -> bool {
        &&& self@.bundle.node == self@.node
        &&& crate::discovery::address::is_ordered(self@.addresses)
        &&& forall|address: IpAddress| #[trigger]
            self@.addresses.contains(address) ==> address.is_usable()
    }

    /// The node that a record stands for, given what its bundle was read as.
    pub fn from_claims(
        fullname: &str,
        announced: &Vec<IpAddress>,
        claims: RecordClaims,
        bundle: Result<PairingBundle, PairingError>,
    ) -> (result: Result<DiscoveredNode, RecordError>)
        ensures
            is_node_outcome(
                result,
                fullname@,
                announced@,
                claims@,
                crate::identity::pairing::bundle_outcome(bundle),
            ),
    {
        let pairing_bundle = match bundle {
            Ok(bundle) => bundle,
            Err(error) => {
                return Err(RecordError::InvalidPairingBundle(error));
            },
        };
        if *pairing_bundle.node() != claims.node {
            return Err(RecordError::BundleNodeMismatch);
        }
        if !same_digest(&pairing_bundle.fingerprint(), &claims.fingerprint) {
            return Err(RecordError::FingerprintMismatch);
        }
        let addresses = usable_addresses(announced);
        Ok(
            DiscoveredNode {
                fullname: fullname.to_owned(),
                node: claims.node,
                platform: claims.platform,
                capabilities: claims.capabilities,
                addresses,
                pairing_bundle,
            },
        )
    }

    /// Reads a record. `parse` reads the JSON content of the pairing bundle.
    pub fn from_resolved<P: Fn(&[u8]) -> Result<PairingPayload, String>>(
        service: &ServiceRecord,
        parse: P,
    ) -> (result: Result<DiscoveredNode, RecordError>)
        requires
            forall|content: &[u8]| #[trigger] parse.requires((content,)),
        ensures
            match record_claims(property_views(service.properties@)) {
                Err(fault) => result matches Err(error) && error@ == fault,
                Ok(claims) => match crate::identity::pairing::carried_payload(claims.bundle) {
                    Err(error) => is_node_outcome(
                        result,
                        service.fullname@,
                        service.addresses@,
                        claims,
                        Err(error),
                    ),
                    Ok(carried) => exists|content: &[u8], payload: Result<PairingPayload, String>|
                        content@ == carried && #[trigger] parse.ensures((content,), payload)
                            && is_node_outcome(
                            result,
                            service.fullname@,
                            service.addresses@,
                            claims,
                            crate::identity::pairing::decoded_bundle(payload),
                        ),
                },
            },
            result matches Err(RecordError::InvalidNode(node, error)) ==> error.applies_to(
                vstd::utf8::encode_utf8(node@),
            ),
    {
        let claims = match RecordClaims::read(&service.properties) {
            Ok(claims) => claims,
            Err(error) => {
                return Err(error);
            },
        };
        let bundle = PairingBundle::decode(claims.bundle.as_str(), parse);
        DiscoveredNode::from_claims(service.fullname.as_str(), &service.addresses, claims, bundle)
    }

    pub fn fullname(&self) -> (fullname: &str)
        ensures
            fullname@ == self@.fullname,
    {
        self.fullname.as_str()
    }

    pub fn node(&self) -> (node: &NodeId)
        ensures
            node@ == self@.node,
    {
        &self.node
    }

    pub fn platform(&self) -> (platform: HostPlatform)
        ensures
            platform == self@.platform,
    {
        self.platform
    }

    pub fn capabilities(&self) -> (capabilities: Capabilities)
        ensures
            capabilities == self@.capabilities,
    {
        self.capabilities
    }

    pub fn addresses(&self) -> (addresses: &[IpAddress])
        ensures
            addresses@ == self@.addresses,
            crate::discovery::address::is_ordered(addresses@),
    {
        proof {
            use_type_invariant(self);
        }
        self.addresses.as_slice()
    }

    pub fn fingerprint(&self) -> (fingerprint: [u8; 32])
        ensures
            fingerprint@ == self@.fingerprint(),
    {
        self.pairing_bundle.fingerprint()
    }

    pub fn pairing_bundle(&self) -> (bundle: &PairingBundle)
        ensures
            bundle@ == self@.bundle,
            bundle@.node == self@.node,
    {
        proof {
            use_type_invariant(self);
        }
        &self.pairing_bundle
    }
}

impl Clone for DiscoveredNode {
    fn clone(&self) -> (copy: DiscoveredNode)
        ensures
            copy@ == self@,
    {
        proof {
            use_type_invariant(self);
        }
        let addresses = copy_addresses(&self.addresses);
        DiscoveredNode {
            fullname: self.fullname.clone(),
            node: self.node.clone(),
            platform: self.platform,
            capabilities: self.capabilities,
            addresses,
            pairing_bundle: self.pairing_bundle.clone(),
        }
    }
}

impl PartialEq for DiscoveredNode {
    fn eq(&self, other: &DiscoveredNode) -> (result: bool) {
        self.fullname == other.fullname && self.node == other.node && self.platform
            == other.platform && self.capabilities == other.capabilities && same_addresses(
            &self.addresses,
            &other.addresses,
        ) && *self.pairing_bundle.node() == *other.pairing_bundle.node() && same_bytes(
            self.pairing_bundle.trust_anchor(),
            other.pairing_bundle.trust_anchor(),
        )
    }
}

impl vstd::std_specs::cmp::PartialEqSpecImpl for DiscoveredNode {
    open spec fn obeys_eq_spec() -> bool {
        true
    }

    open spec fn eq_spec(&self, other: &DiscoveredNode) -> bool {
        self@ == other@
    }
}

fn copy_addresses(addresses: &Vec<IpAddress>) -> (copy: Vec<IpAddress>)
    ensures
        copy@ == addresses@,
{
    let mut copy: Vec<IpAddress> = Vec::new();
    let mut index: usize = 0;
    while index < addresses.len()
        invariant
            index <= addresses@.len(),
            copy@ == addresses@.take(index as int),
        decreases addresses@.len() - index,
    {
        copy.push(addresses[index]);
        assert(copy@ =~= addresses@.take(index + 1));
        index += 1;
    }
    assert(copy@ =~= addresses@);
    copy
}

fn same_addresses(a: &Vec<IpAddress>, b: &Vec<IpAddress>) -> (result: bool)
    ensures
        result == (a@ == b@),
{
    if a.len() != b.len() {
        return false;
    }
    let mut index: usize = 0;
    while index < a.len()
        invariant
            index <= a@.len(),
            a@.len() == b@.len(),
            forall|i: int| 0 <= i < index ==> #[trigger] a@[i] == b@[i],
        decreases a@.len() - index,
    {
        if a[index] != b[index] {
            return false;
        }
        index += 1;
    }
    assert(a@ =~= b@);
    true
}

/// Both slices hold the same bytes.
pub fn same_bytes(a: &[u8], b: &[u8]) -> (result: bool)
    ensures
        result == (a@ == b@),
{
    if a.len() != b.len() {
        return false;
    }
    let mut index: usize = 0;
    while index < a.len()
        invariant
            index <= a@.len(),
            a@.len() == b@.len(),
            forall|i: int| 0 <= i < index ==> #[trigger] a@[i] == b@[i],
        decreases a@.len() - index,
    {
        if a[index] != b[index] {
            return false;
        }
        index += 1;
    }
    assert(a@ =~= b@);
    true
}

/// How a node announces itself.
#[derive(Debug)]
pub struct Advertisement {
    /// The name of the service instance.
    pub instance: String,
    /// The name of the host.
    pub host: String,
    pub properties: Vec<(String, String)>,
}

/// The number of parts that a text of this length is announced in.
pub open spec fn chunk_count(length: int) -> int {
    (length + BUNDLE_CHUNK_BYTES - 1) / (BUNDLE_CHUNK_BYTES as int)
}

/// The part of a text at `index`.
pub open spec fn chunk_of(text: Seq<char>, index: int) -> Seq<char> {
    let from = BUNDLE_CHUNK_BYTES * index;
    let to = from + BUNDLE_CHUNK_BYTES;
    text.subrange(
        from,
        if to <= text.len() {
            to
        } else {
            text.len() as int
        },
    )
}

/// The properties of a node with this bundle text.
pub open spec fn announced_properties(
    bundle: crate::identity::pairing::BundleView,
    text: Seq<char>,
    platform: HostPlatform,
    capabilities: Capabilities,
) -> Seq<(Seq<char>, Seq<char>)> {
    let count = chunk_count(text.len() as int);
    seq![
        (PROPERTY_NODE@, bundle.node),
        (PROPERTY_PROTOCOL@, protocol_text()),
        (PROPERTY_PLATFORM@, platform_text(platform)),
        (PROPERTY_CAPABILITIES@, crate::text::decimal(bits_of(capabilities) as nat)),
        (
            PROPERTY_FINGERPRINT@,
            fingerprint_text(crate::digest::sha256_of(bundle.trust_anchor)),
        ),
        (PROPERTY_BUNDLE_CHUNKS@, crate::text::decimal(count as nat)),
    ] + Seq::new(count as nat, |i: int| (chunk_key(i as nat), chunk_of(text, i)))
}

/// Why a node cannot be announced.
#[derive(Clone, Copy, Debug, PartialEq, Eq, Structural)]
pub enum DiscoveryError {
    PairingBundleTooLarge { actual: usize, maximum: usize },
}

/// How the node of a bundle announces itself. A reader of the announcement
/// learns the node, its platform and capabilities, the fingerprint of its
/// certificate and the text of its bundle.
pub fn advertisement(
    bundle: &PairingBundle,
    platform: HostPlatform,
    capabilities: Capabilities,
) -> (result: Result<Advertisement, DiscoveryError>)
    ensures
        match result {
            Ok(advertisement) => {
                let text = crate::identity::pairing::bundle_text(bundle@);
                &&& text.len() <= MAX_ADVERTISED_BUNDLE_BYTES
                &&& advertisement.instance@ == bundle@.node
                &&& advertisement.host@ == bundle@.node + ".local."@
                &&& property_views(advertisement.properties@) == announced_properties(
                    bundle@,
                    text,
                    platform,
                    capabilities,
                )
                &&& record_claims(property_views(advertisement.properties@)) == Ok::<
                    ClaimsView,
                    RecordFault,
                >(
                    ClaimsView {
                        node: bundle@.node,
                        platform,
                        capabilities,
                        fingerprint: crate::digest::sha256_of(bundle@.trust_anchor),
                        bundle: text,
                    },
                )
            },
            Err(error) => {
                let length = crate::identity::pairing::bundle_text(bundle@).len();
                &&& length > MAX_ADVERTISED_BUNDLE_BYTES
                &&& error == (DiscoveryError::PairingBundleTooLarge {
                    actual: length as usize,
                    maximum: MAX_ADVERTISED_BUNDLE_BYTES,
                })
            },
        },
{
    let encoded = bundle.encode();
    let ghost text = encoded@;
    proof {
        vstd::utf8::is_ascii_chars_encode_utf8(text);
    }
    let length: usize = encoded.as_str().as_bytes().len();
    if length > MAX_ADVERTISED_BUNDLE_BYTES {
        return Err(
            DiscoveryError::PairingBundleTooLarge {
                actual: length,
                maximum: MAX_ADVERTISED_BUNDLE_BYTES,
            },
        );
    }
    let count: usize = (length + BUNDLE_CHUNK_BYTES - 1) / BUNDLE_CHUNK_BYTES;
    let fingerprint = bundle.fingerprint();
    let bits: u8 = capability_bits(capabilities);
    let mut properties: Vec<(String, String)> = Vec::new();
    properties.push((PROPERTY_NODE.to_owned(), bundle.node().as_str().to_owned()));
    properties.push((PROPERTY_PROTOCOL.to_owned(), current_protocol()));
    properties.push((PROPERTY_PLATFORM.to_owned(), platform_name(platform).to_owned()));
    properties.push((PROPERTY_CAPABILITIES.to_owned(), decimal_text(bits as u64)));
    properties.push((PROPERTY_FINGERPRINT.to_owned(), encode_fingerprint(&fingerprint)));
    properties.push((PROPERTY_BUNDLE_CHUNKS.to_owned(), decimal_text(count as u64)));
    let ghost expected = announced_properties(bundle@, text, platform, capabilities);
    assert(property_views(properties@) =~= expected.take(6));
    let mut index: usize = 0;
    while index < count
        invariant
            index <= count,
            encoded@ == text,
            length == text.len(),
            length <= MAX_ADVERTISED_BUNDLE_BYTES,
            count == chunk_count(length as int),
            expected == announced_properties(bundle@, text, platform, capabilities),
            property_views(properties@) == expected.take(6 + index),
        decreases count - index,
    {
        let from: usize = BUNDLE_CHUNK_BYTES * index;
        let to: usize = if from + BUNDLE_CHUNK_BYTES <= length {
            from + BUNDLE_CHUNK_BYTES
        } else {
            length
        };
        let chunk = encoded.as_str().substring_char(from, to);
        let ghost before = property_views(properties@);
        properties.push((chunk_property(index), chunk.to_owned()));
        proof {
            assert(expected[6 + index as int] == (
                chunk_key(index as nat),
                chunk_of(text, index as int),
            ));
            assert(chunk@ =~= chunk_of(text, index as int));
            assert(property_views(properties@) =~= before.push(expected[6 + index as int]));
            assert(expected.take(6 + index + 1) =~= before.push(expected[6 + index as int]));
        }
        index += 1;
    }
    let mut host = bundle.node().as_str().to_owned();
    host.append(".local.");
    proof {
        assert(expected.take(6 + count) =~= expected);
        assert(host@ =~= bundle@.node + ".local."@);
        lemma_announced_claims(bundle@, text, platform, capabilities, fingerprint@);
    }
    Ok(Advertisement { instance: bundle.node().as_str().to_owned(), host, properties })
}

proof fn lemma_hex_pair(byte: u8)
    ensures
        pair_value(
            crate::encoding::lower_hex((byte / 16) as int),
            crate::encoding::lower_hex((byte % 16) as int),
        ) == Some(byte as int),
{
}

/// A digest reads back from its hexadecimal text.
pub proof fn law_fingerprints_round_trip(fingerprint: Seq<u8>)
    requires
        fingerprint.len() == 32,
    ensures
        announced_fingerprint(fingerprint_text(fingerprint)) == Some(fingerprint),
{
    let text = fingerprint_text(fingerprint);
    assert forall|i: int| 0 <= i < 32 implies #[trigger] pair_value(text[2 * i], text[2 * i + 1])
        == Some(fingerprint[i] as int) by {
        lemma_hex_pair(fingerprint[i]);
        assert((2 * i) / 2 == i && (2 * i + 1) / 2 == i);
    }
    assert(announced_fingerprint(text)->0 =~= fingerprint);
}

/// Capabilities read back from the number that they are announced as.
pub proof fn law_capabilities_round_trip(capabilities: Capabilities)
    ensures
        announced_capabilities(crate::text::decimal(bits_of(capabilities) as nat)) == Some(
            capabilities,
        ),
{
    let bits = bits_of(capabilities);
    crate::text::law_decimal_u32_round_trips(bits as u32);
    assert(capabilities_of(bits) == capabilities);
}

/// A platform reads back from its name.
pub proof fn law_platforms_round_trip(platform: HostPlatform)
    ensures
        named_platform(platform_text(platform)) == Some(platform),
{
    reveal_strlit("linux-wayland");
    reveal_strlit("windows");
    assert("linux-wayland"@.len() != "windows"@.len());
}

/// Keys of other lengths, or with another letter in one place, are told apart.
proof fn lemma_keys_differ(a: Seq<char>, b: Seq<char>, at: int)
    requires
        a.len() != b.len() || (0 <= at < a.len() && crate::identity::pairing::ascii_lower(a[at])
            != crate::identity::pairing::ascii_lower(b[at])),
    ensures
        !crate::platform::report::same_ignoring_case(a, b),
{
    let lower_a = crate::identity::pairing::lowered(a);
    let lower_b = crate::identity::pairing::lowered(b);
    assert(lower_a.len() == a.len() && lower_b.len() == b.len());
    if a.len() == b.len() {
        assert(lower_a[at] == crate::identity::pairing::ascii_lower(a[at]));
        assert(lower_b[at] == crate::identity::pairing::ascii_lower(b[at]));
    }
}

proof fn lemma_later_property(
    properties: Seq<(Seq<char>, Seq<char>)>,
    key: Seq<char>,
    from: int,
    at: int,
)
    requires
        0 <= from <= at < properties.len(),
        properties[at].0 == key,
        properties[at].1.len() > 0,
        forall|i: int|
            from <= i < at ==> !crate::platform::report::same_ignoring_case(
                (#[trigger] properties[i]).0,
                key,
            ),
    ensures
        property_from(properties, key, from) == Some(properties[at].1),
    decreases at - from,
{
    if from < at {
        assert(!crate::platform::report::same_ignoring_case(properties[from].0, key));
        lemma_later_property(properties, key, from + 1, at);
    }
}

proof fn lemma_announced_values(
    bundle: crate::identity::pairing::BundleView,
    text: Seq<char>,
    platform: HostPlatform,
    capabilities: Capabilities,
)
    requires
        bundle.node.len() > 0,
        text.len() <= MAX_ADVERTISED_BUNDLE_BYTES,
        crate::digest::sha256_of(bundle.trust_anchor).len() == 32,
    ensures
        ({
            let properties = announced_properties(bundle, text, platform, capabilities);
            &&& forall|i: int|
                0 <= i < 6 ==> property_value(properties, (#[trigger] properties[i]).0) == Some(
                    properties[i].1,
                )
            &&& forall|i: int|
                0 <= i < chunk_count(text.len() as int) ==> property_value(
                    properties,
                    #[trigger] chunk_key(i as nat),
                ) == Some(chunk_of(text, i))
        }),
{
    let properties = announced_properties(bundle, text, platform, capabilities);
    let count = chunk_count(text.len() as int);
    reveal_strlit("node");
    reveal_strlit("protocol");
    reveal_strlit("platform");
    reveal_strlit("capabilities");
    reveal_strlit("fingerprint");
    reveal_strlit("bundle-chunks");
    reveal_strlit("bundle-");
    reveal_strlit("linux-wayland");
    reveal_strlit("windows");
    reveal_with_fuel(crate::text::decimal, 2);
    assert("protocol"@[1] == 'r' && "platform"@[1] == 'l');
    assert forall|i: int| 0 <= i < 6 implies property_value(
        properties,
        (#[trigger] properties[i]).0,
    ) == Some(properties[i].1) by {
        assert(properties[0].0.len() == 4 && properties[1].0.len() == 8
            && properties[2].0.len() == 8 && properties[3].0.len() == 12
            && properties[4].0.len() == 11 && properties[5].0.len() == 13);
        assert(properties[1].0[1] == 'r' && properties[2].0[1] == 'l');
        assert(properties[i].1.len() > 0);
        assert forall|j: int| 0 <= j < i implies !crate::platform::report::same_ignoring_case(
            (#[trigger] properties[j]).0,
            properties[i].0,
        ) by {
            lemma_keys_differ(properties[j].0, properties[i].0, 1);
        }
        lemma_later_property(properties, properties[i].0, 0, i);
    }
    assert forall|i: int| 0 <= i < count implies property_value(
        properties,
        #[trigger] chunk_key(i as nat),
    ) == Some(chunk_of(text, i)) by {
        let key = chunk_key(i as nat);
        assert(key.len() == 8 && key[0] == 'b' && key[7] == crate::text::digit_char(i));
        assert(properties[6 + i] == (key, chunk_of(text, i)));
        assert forall|j: int| 0 <= j < 6 + i implies !crate::platform::report::same_ignoring_case(
            (#[trigger] properties[j]).0,
            key,
        ) by {
            if j < 6 {
                assert(properties[0].0.len() == 4 && properties[1].0[0] == 'p'
                    && properties[2].0[0] == 'p' && properties[3].0.len() == 12
                    && properties[4].0.len() == 11 && properties[5].0.len() == 13);
                lemma_keys_differ(properties[j].0, key, 0);
            } else {
                let other = chunk_key((j - 6) as nat);
                assert(properties[j].0 == other);
                assert(other[7] == crate::text::digit_char(j - 6));
                lemma_keys_differ(other, key, 7);
            }
        }
        lemma_later_property(properties, key, 0, 6 + i);
    }
}

proof fn lemma_joined(
    properties: Seq<(Seq<char>, Seq<char>)>,
    text: Seq<char>,
    count: nat,
)
    requires
        vstd::utf8::is_ascii_chars(text),
        count <= chunk_count(text.len() as int),
        forall|i: int|
            0 <= i < chunk_count(text.len() as int) ==> property_value(
                properties,
                #[trigger] chunk_key(i as nat),
            ) == Some(chunk_of(text, i)),
    ensures
        joined_chunks(properties, count) == Ok::<Seq<char>, RecordFault>(
            text.take(
                if BUNDLE_CHUNK_BYTES * count <= text.len() {
                    BUNDLE_CHUNK_BYTES * count
                } else {
                    text.len() as int
                },
            ),
        ),
    decreases count,
{
    if count == 0 {
        assert(text.take(0) =~= Seq::<char>::empty());
    } else {
        let index = (count - 1) as nat;
        lemma_joined(properties, text, index);
        let chunk = chunk_of(text, index as int);
        assert(property_value(properties, chunk_key(index)) == Some(chunk));
        assert(vstd::utf8::is_ascii_chars(chunk));
        vstd::utf8::is_ascii_chars_encode_utf8(chunk);
        assert(text.take(BUNDLE_CHUNK_BYTES * index) + chunk =~= text.take(
            if BUNDLE_CHUNK_BYTES * count <= text.len() {
                BUNDLE_CHUNK_BYTES * count
            } else {
                text.len() as int
            },
        ));
    }
}

proof fn lemma_announced_claims(
    bundle: crate::identity::pairing::BundleView,
    text: Seq<char>,
    platform: HostPlatform,
    capabilities: Capabilities,
    fingerprint: Seq<u8>,
)
    requires
        crate::domain::identity::is_node_id(vstd::utf8::encode_utf8(bundle.node)),
        vstd::utf8::is_ascii_chars(text),
        0 < text.len() <= MAX_ADVERTISED_BUNDLE_BYTES,
        fingerprint == crate::digest::sha256_of(bundle.trust_anchor),
        fingerprint.len() == 32,
    ensures
        record_claims(announced_properties(bundle, text, platform, capabilities)) == Ok::<
            ClaimsView,
            RecordFault,
        >(
            ClaimsView {
                node: bundle.node,
                platform,
                capabilities,
                fingerprint,
                bundle: text,
            },
        ),
{
    let properties = announced_properties(bundle, text, platform, capabilities);
    let count = chunk_count(text.len() as int);
    crate::identity::pairing::lemma_node_is_ascii(bundle.node);
    lemma_announced_values(bundle, text, platform, capabilities);
    assert(properties[0].0 == PROPERTY_NODE@ && properties[1].0 == PROPERTY_PROTOCOL@
        && properties[2].0 == PROPERTY_PLATFORM@ && properties[3].0 == PROPERTY_CAPABILITIES@
        && properties[4].0 == PROPERTY_FINGERPRINT@ && properties[5].0
        == PROPERTY_BUNDLE_CHUNKS@);
    law_platforms_round_trip(platform);
    law_capabilities_round_trip(capabilities);
    law_fingerprints_round_trip(fingerprint);
    crate::text::law_decimal_u32_round_trips(count as u32);
    lemma_joined(properties, text, count as nat);
    assert(text.take(text.len() as int) =~= text);
}

impl RecordError {
    /// The error in words.
    pub open spec fn text(self) -> Seq<char> {
        match self {
            RecordError::MissingProperty(property) => "missing `"@ + property@ + "` property"@,
            RecordError::InvalidNode(_, error) => "node ID is invalid: "@ + error.text(),
            RecordError::UnsupportedProtocol(value) => {
                "protocol `"@ + value@ + "` is not supported"@
            },
            RecordError::UnsupportedPlatform(value) => {
                "platform `"@ + value@ + "` is not supported"@
            },
            RecordError::InvalidCapabilities => "capability flags are invalid"@,
            RecordError::InvalidFingerprint => "certificate fingerprint is invalid"@,
            RecordError::InvalidBundleChunkCount => "bundle chunk count is invalid"@,
            RecordError::MissingBundleChunk(index) => {
                "bundle chunk "@ + crate::text::decimal(index as nat) + " is missing"@
            },
            RecordError::BundleChunkTooLarge(index) => {
                "bundle chunk "@ + crate::text::decimal(index as nat) + " exceeds its size limit"@
            },
            RecordError::InvalidPairingBundle(error) => {
                "pairing bundle is invalid: "@ + error.text()
            },
            RecordError::BundleNodeMismatch => {
                "pairing bundle node does not match the advertised node"@
            },
            RecordError::FingerprintMismatch => {
                "pairing bundle fingerprint does not match the advertised fingerprint"@
            },
        }
    }

    /// The error in words.
    pub fn message(&self) -> (message: String)
        ensures
            message@ == self.text(),
    {
        let mut message = String::new();
        match self {
            RecordError::MissingProperty(property) => {
                message.append("missing `");
                message.append(property);
                message.append("` property");
            },
            RecordError::InvalidNode(_, error) => {
                message.append("node ID is invalid: ");
                message.append(error.message().as_str());
            },
            RecordError::UnsupportedProtocol(value) => {
                message.append("protocol `");
                message.append(value.as_str());
                message.append("` is not supported");
            },
            RecordError::UnsupportedPlatform(value) => {
                message.append("platform `");
                message.append(value.as_str());
                message.append("` is not supported");
            },
            RecordError::InvalidCapabilities => message.append("capability flags are invalid"),
            RecordError::InvalidFingerprint => {
                message.append("certificate fingerprint is invalid");
            },
            RecordError::InvalidBundleChunkCount => {
                message.append("bundle chunk count is invalid");
            },
            RecordError::MissingBundleChunk(index) => {
                message.append("bundle chunk ");
                push_decimal(&mut message, *index as u64);
                message.append(" is missing");
            },
            RecordError::BundleChunkTooLarge(index) => {
                message.append("bundle chunk ");
                push_decimal(&mut message, *index as u64);
                message.append(" exceeds its size limit");
            },
            RecordError::InvalidPairingBundle(error) => {
                message.append("pairing bundle is invalid: ");
                message.append(error.message().as_str());
            },
            RecordError::BundleNodeMismatch => {
                message.append("pairing bundle node does not match the advertised node");
            },
            RecordError::FingerprintMismatch => {
                message.append(
                    "pairing bundle fingerprint does not match the advertised fingerprint",
                );
            },
        }
        assert(message@ =~= self.text());
        message
    }
}

impl DiscoveryError {
    /// The error in words.
    pub open spec fn text(self) -> Seq<char> {
        match self {
            DiscoveryError::PairingBundleTooLarge { actual, maximum } => {
                "pairing bundle is "@ + crate::text::decimal(actual as nat)
                    + " bytes; discovery allows at most "@ + crate::text::decimal(maximum as nat)
            },
        }
    }

    /// The error in words.
    pub fn message(&self) -> (message: String)
        ensures
            message@ == self.text(),
    {
        let mut message = String::new();
        match self {
            DiscoveryError::PairingBundleTooLarge { actual, maximum } => {
                message.append("pairing bundle is ");
                push_decimal(&mut message, *actual as u64);
                message.append(" bytes; discovery allows at most ");
                push_decimal(&mut message, *maximum as u64);
            },
        }
        assert(message@ =~= self.text());
        message
    }
}

} // verus!
