use bytes::{BufMut, BytesMut};
use tevir::domain::host::HostPlatform;
use tevir::domain::identity::NodeId;
use tevir::domain::input::{InputEvent, InputKind, KeyAction, PhysicalKey};
use tevir::domain::nonzero::NonZeroU32;
use tevir::protocol::codec::{
    accept, CodecError, FrameCodec, DEFAULT_MAX_FRAME_BYTES, HARD_MAX_FRAME_BYTES,
};
use tevir::protocol::message::{
    Capabilities, Envelope, Handshake, Hello, InputBatch, MessageValidationError, ProtocolVersion,
    Session, MAX_INPUT_EVENTS_PER_BATCH,
};

fn hello() -> Envelope {
    let maximum_frame_bytes = NonZeroU32::new(DEFAULT_MAX_FRAME_BYTES as u32)
        .unwrap_or_else(|| panic!("default maximum must be non-zero"));
    let node =
        NodeId::new("left-desk").unwrap_or_else(|error| panic!("invalid test node: {error:?}"));
    Envelope::Handshake(Handshake::Hello(Hello {
        version: ProtocolVersion::current(),
        node,
        nonce: [7; 32],
        platform: HostPlatform::LinuxWayland,
        capabilities: Capabilities {
            keyboard: true,
            relative_pointer: true,
            absolute_pointer: false,
            clipboard_text: true,
        },
        maximum_frame_bytes,
    }))
}

type WrittenHello = (
    (u8, u8),
    (u16, u16),
    String,
    [u8; 32],
    u8,
    (bool, bool, bool, bool),
    u32,
);

fn serialize(message: &Envelope) -> Result<Vec<u8>, String> {
    let Envelope::Handshake(Handshake::Hello(hello)) = message else {
        return Err(String::from("only greetings are written down here"));
    };
    let capabilities = hello.capabilities;
    let written: WrittenHello = (
        (0, 0),
        (hello.version.major, hello.version.minor),
        hello.node.as_str().to_owned(),
        hello.nonce,
        u8::from(hello.platform == HostPlatform::Windows),
        (
            capabilities.keyboard,
            capabilities.relative_pointer,
            capabilities.absolute_pointer,
            capabilities.clipboard_text,
        ),
        hello.maximum_frame_bytes.get(),
    );
    postcard::to_allocvec(&written).map_err(|error| error.to_string())
}

fn parse(payload: &[u8]) -> Result<Envelope, String> {
    let (_, (major, minor), node, nonce, platform, capabilities, maximum): WrittenHello =
        postcard::from_bytes(payload).map_err(|error| error.to_string())?;
    Ok(Envelope::Handshake(Handshake::Hello(Hello {
        version: ProtocolVersion { major, minor },
        node: NodeId::new(&node).map_err(|error| error.message())?,
        nonce,
        platform: if platform == 0 {
            HostPlatform::LinuxWayland
        } else {
            HostPlatform::Windows
        },
        capabilities: Capabilities {
            keyboard: capabilities.0,
            relative_pointer: capabilities.1,
            absolute_pointer: capabilities.2,
            clipboard_text: capabilities.3,
        },
        maximum_frame_bytes: NonZeroU32::new(maximum).ok_or("no maximum")?,
    })))
}

fn empty_input() -> Envelope {
    Envelope::Session(Session::Input(InputBatch {
        focus_epoch: 1,
        sequence: 1,
        events: Vec::new(),
    }))
}

#[test]
fn compatibility_requires_the_exact_current_version() {
    assert!(ProtocolVersion::current().is_current());
    assert!(!ProtocolVersion { major: 1, minor: 4 }.is_current());
    assert!(!ProtocolVersion { major: 1, minor: 2 }.is_current());
}

#[test]
fn capability_negotiation_is_an_intersection() {
    let controller = Capabilities {
        keyboard: true,
        relative_pointer: true,
        absolute_pointer: false,
        clipboard_text: true,
    };
    let agent = Capabilities {
        keyboard: true,
        relative_pointer: false,
        absolute_pointer: true,
        clipboard_text: true,
    };

    assert_eq!(
        controller.intersection(agent),
        Capabilities {
            keyboard: true,
            relative_pointer: false,
            absolute_pointer: false,
            clipboard_text: true,
        }
    );
}

#[test]
fn round_trips_one_message() {
    let codec = FrameCodec::default();
    let mut frame = codec
        .encode(&hello(), serialize)
        .unwrap_or_else(|error| panic!("encoding failed: {error:?}"));

    let decoded = codec
        .decode(&mut frame, parse)
        .unwrap_or_else(|error| panic!("decoding failed: {error:?}"));

    assert_eq!(decoded, Some(hello()));
    assert!(frame.is_empty());
}

#[test]
fn waits_for_a_complete_payload() {
    let codec = FrameCodec::default();
    let complete = codec
        .encode(&hello(), serialize)
        .unwrap_or_else(|error| panic!("encoding failed: {error:?}"));
    let split = complete.len() - 1;
    let mut partial = BytesMut::from(&complete[..split]);

    assert_eq!(
        codec
            .decode(&mut partial, parse)
            .unwrap_or_else(|error| panic!("decoding failed: {error:?}")),
        None
    );
    partial.extend_from_slice(&complete[split..]);
    assert_eq!(
        codec
            .decode(&mut partial, parse)
            .unwrap_or_else(|error| panic!("decoding failed: {error:?}")),
        Some(hello())
    );
}

#[test]
fn frames_are_taken_one_after_another() {
    let codec = FrameCodec::default();
    let mut source = BytesMut::from(&[0, 0, 0, 1, 9, 0, 0, 0, 2, 8, 7, 0][..]);
    assert_eq!(
        codec.take_payload(&mut source),
        Ok(Some(BytesMut::from(&[9][..])))
    );
    assert_eq!(
        codec.take_payload(&mut source),
        Ok(Some(BytesMut::from(&[8, 7][..])))
    );
    assert_eq!(codec.take_payload(&mut source), Ok(None));
    assert_eq!(&source[..], &[0]);
}

#[test]
fn rejects_an_oversized_declared_payload_before_allocation() {
    let codec = FrameCodec::new(32).unwrap_or_else(|error| panic!("invalid codec: {error:?}"));
    let mut source = BytesMut::new();
    source.put_u32(33);

    assert!(matches!(
        codec.decode(&mut source, parse),
        Err(CodecError::FrameTooLarge {
            actual: 33,
            maximum: 32
        })
    ));
}

#[test]
fn codecs_refuse_limits_and_payloads_out_of_range() {
    assert!(matches!(
        FrameCodec::new(0),
        Err(CodecError::InvalidMaximum { requested: 0, .. })
    ));
    assert!(matches!(
        FrameCodec::new(HARD_MAX_FRAME_BYTES + 1),
        Err(CodecError::InvalidMaximum { .. })
    ));
    let codec = FrameCodec::new(2).unwrap_or_else(|error| panic!("invalid codec: {error:?}"));
    assert_eq!(
        codec.frame(Ok(vec![1, 2, 3])),
        Err(CodecError::FrameTooLarge {
            actual: 3,
            maximum: 2
        })
    );
    assert_eq!(
        codec.frame(Ok(vec![1, 2])),
        Ok(BytesMut::from(&[0, 0, 0, 2, 1, 2][..]))
    );
    assert_eq!(
        codec.encode(&empty_input(), serialize),
        Err(CodecError::InvalidMessage(
            MessageValidationError::EmptyInputBatch
        ))
    );
    assert_eq!(
        codec.encode(&Envelope::Session(Session::Disconnect), serialize),
        Err(CodecError::Serialize(String::from(
            "only greetings are written down here"
        )))
    );
}

#[test]
fn received_messages_are_checked() {
    let codec = FrameCodec::default();
    let mut source = BytesMut::from(&[0, 0, 0, 1, 9, 7][..]);
    assert_eq!(
        codec.decode(&mut source, |_| Ok(empty_input())),
        Err(CodecError::InvalidMessage(
            MessageValidationError::EmptyInputBatch
        ))
    );
    assert_eq!(&source[..], &[7]);
    let mut source = BytesMut::from(&[0, 0, 0, 1, 9][..]);
    let error = codec.decode(&mut source, parse);
    assert_eq!(
        error,
        Err(CodecError::Deserialize(String::from(
            "Hit the end of buffer, expected more data"
        )))
    );
    assert!(source.is_empty());
    assert_eq!(
        accept(Ok(Envelope::Session(Session::Disconnect))),
        Ok(Envelope::Session(Session::Disconnect))
    );
}

#[test]
fn batches_are_bounded() {
    let event = InputEvent {
        elapsed_micros: 0,
        kind: InputKind::Key {
            key: PhysicalKey::new(7, 4),
            action: KeyAction::Press,
        },
    };
    let batch = |count: usize| {
        Envelope::Session(Session::Input(InputBatch {
            focus_epoch: 1,
            sequence: 1,
            events: vec![event; count],
        }))
    };
    assert_eq!(batch(MAX_INPUT_EVENTS_PER_BATCH).validate(), Ok(()));
    assert_eq!(
        batch(MAX_INPUT_EVENTS_PER_BATCH + 1).validate(),
        Err(MessageValidationError::TooManyInputEvents {
            actual: 513,
            maximum: 512
        })
    );
}
