use tevir::domain::identity::NodeId;
use tevir::domain::nonzero::NonZeroU64;
use tevir::protocol::clipboard::{
    ClipboardControl, ClipboardError, ClipboardGeneration, ClipboardText,
    MAX_CLIPBOARD_FRAME_BYTES, MAX_CLIPBOARD_TEXT_BYTES,
};
use tevir::session::clipboard::{ClipboardAction, ClipboardSession, ClipboardSessionError};

fn node(value: &str) -> NodeId {
    NodeId::new(value).unwrap_or_else(|error| panic!("invalid test node: {error:?}"))
}

fn generation(owner: &str, sequence: u64) -> ClipboardGeneration {
    ClipboardGeneration::new(
        node(owner),
        NonZeroU64::new(sequence).unwrap_or(NonZeroU64::min_value()),
    )
}

fn transfer(owner: &str, sequence: u64, text: &str) -> ClipboardText {
    ClipboardText::new(generation(owner, sequence), text.to_owned())
        .unwrap_or_else(|error| panic!("invalid test transfer: {error:?}"))
}

#[test]
fn text_transfer_round_trips_and_matches_its_offer() {
    let transfer = ClipboardText::new(generation("left", 7), String::from("hello \u{1f30d}"))
        .unwrap_or_else(|error| panic!("transfer failed: {error:?}"));
    let offer = transfer.offer();
    let encoded = transfer
        .encode()
        .unwrap_or_else(|error| panic!("encode failed: {error:?}"));
    let decoded = ClipboardText::decode(&encoded)
        .unwrap_or_else(|error| panic!("decode failed: {error:?}"));

    assert_eq!(decoded, transfer);
    assert_eq!(offer.text_bytes(), 10);
    assert_eq!(offer.verify(&decoded), Ok(()));
}

#[test]
fn transfers_are_written_field_by_field() {
    let encoded = transfer("left", 7, "hi")
        .encode()
        .unwrap_or_else(|error| panic!("encode failed: {error:?}"));
    assert_eq!(
        encoded,
        vec![4, b'l', b'e', b'f', b't', 7, 2, b'h', b'i']
    );
}

#[test]
fn offers_carry_the_digest_of_the_text() {
    assert_eq!(
        transfer("left", 1, "hello").offer().digest()[..4],
        [0x2c, 0xf2, 0x4d, 0xba]
    );
}

#[test]
fn rejects_text_over_the_explicit_limit() {
    let text = "x".repeat(MAX_CLIPBOARD_TEXT_BYTES + 1);

    assert_eq!(
        ClipboardText::new(generation("left", 1), text),
        Err(ClipboardError::TextTooLarge {
            actual: MAX_CLIPBOARD_TEXT_BYTES + 1,
            maximum: MAX_CLIPBOARD_TEXT_BYTES,
        })
    );
}

#[test]
fn exact_text_limit_fits_the_clipboard_frame() {
    let transfer = ClipboardText::new(generation("left", 1), "x".repeat(MAX_CLIPBOARD_TEXT_BYTES))
        .unwrap_or_else(|error| panic!("transfer failed: {error:?}"));
    let encoded = transfer
        .encode()
        .unwrap_or_else(|error| panic!("encode failed: {error:?}"));

    assert!(encoded.len() <= MAX_CLIPBOARD_FRAME_BYTES);
    assert_eq!(
        ClipboardText::decode(&encoded)
            .unwrap_or_else(|error| panic!("decode failed: {error:?}")),
        transfer
    );
}

#[test]
fn rejects_a_frame_before_deserializing_it() {
    let encoded = vec![0; MAX_CLIPBOARD_FRAME_BYTES + 1];

    assert_eq!(
        ClipboardText::decode(&encoded),
        Err(ClipboardError::FrameTooLarge {
            actual: MAX_CLIPBOARD_FRAME_BYTES + 1,
            maximum: MAX_CLIPBOARD_FRAME_BYTES,
        })
    );
}

#[test]
fn rejects_bytes_that_are_no_transfer() {
    assert_eq!(
        ClipboardText::decode(&[4, b'l']),
        Err(ClipboardError::Deserialize)
    );
    assert_eq!(
        ClipboardText::decode(&[1, b'L', 1, 0]),
        Err(ClipboardError::Deserialize)
    );
    assert_eq!(
        ClipboardText::decode(&[1, b'l', 0, 0]),
        Err(ClipboardError::Deserialize)
    );
}

#[test]
fn offer_detects_the_wrong_generation() {
    let offered = transfer("left", 1, "hello");
    let received = transfer("right", 1, "hello");

    assert_eq!(
        offered.offer().verify(&received),
        Err(ClipboardError::GenerationMismatch)
    );
}

#[test]
fn offer_detects_modified_text() {
    let offered = transfer("left", 1, "hello");
    let received = transfer("left", 1, "jello");

    assert_eq!(
        offered.offer().verify(&received),
        Err(ClipboardError::DigestMismatch)
    );
    assert_eq!(
        offered.offer().verify(&transfer("left", 1, "hell")),
        Err(ClipboardError::LengthMismatch {
            offered: 5,
            actual: 4
        })
    );
}

#[test]
fn local_changes_offer_control_before_the_bulk_transfer() {
    let mut session = ClipboardSession::new(node("left"), node("right"));

    let actions = session
        .local_changed(String::from("hello"))
        .unwrap_or_else(|error| panic!("local change failed: {error:?}"));

    assert!(matches!(
        actions.as_slice(),
        [
            ClipboardAction::SendControl(ClipboardControl::Offered(offer)),
            ClipboardAction::SendTransfer(payload),
        ] if offer.generation() == payload.generation()
            && offer.verify(payload).is_ok()
            && payload.generation() == &generation("left", 1)
    ));
    assert_eq!(session.pending_local(), Some(&generation("left", 1)));
}

#[test]
fn transfer_may_arrive_before_its_control_offer() {
    let mut session = ClipboardSession::new(node("right"), node("left"));
    let payload = transfer("left", 1, "hello");

    assert_eq!(session.receive_transfer(payload.clone()), Ok(Vec::new()));
    assert_eq!(
        session.receive_control(ClipboardControl::Offered(payload.offer())),
        Ok(vec![ClipboardAction::ApplyRemote(payload)])
    );
    assert_eq!(session.pending_application(), Some(&generation("left", 1)));
}

#[test]
fn confirmation_acknowledges_only_after_native_application() {
    let mut sender = ClipboardSession::new(node("left"), node("right"));
    let mut receiver = ClipboardSession::new(node("right"), node("left"));
    let actions = sender
        .local_changed(String::from("hello"))
        .unwrap_or_else(|error| panic!("local change failed: {error:?}"));
    let mut application = None;

    for action in actions {
        let received = match action {
            ClipboardAction::SendControl(control) => receiver.receive_control(control),
            ClipboardAction::SendTransfer(transfer) => receiver.receive_transfer(transfer),
            ClipboardAction::ApplyRemote(_) => panic!("sender cannot apply its own clipboard"),
        }
        .unwrap_or_else(|error| panic!("receive failed: {error:?}"));
        application = application.or_else(|| {
            received.into_iter().find_map(|action| match action {
                ClipboardAction::ApplyRemote(transfer) => Some(transfer),
                ClipboardAction::SendControl(_) | ClipboardAction::SendTransfer(_) => None,
            })
        });
    }

    let application = application.unwrap_or_else(|| panic!("application action missing"));
    assert_eq!(sender.last_acknowledged_local_sequence(), 0);
    let acknowledgements = receiver
        .confirm_applied(application.generation())
        .unwrap_or_else(|error| panic!("confirmation failed: {error:?}"));
    assert!(matches!(
        acknowledgements.as_slice(),
        [ClipboardAction::SendControl(ClipboardControl::Applied { generation })]
            if generation == application.generation()
    ));
    for action in acknowledgements {
        if let ClipboardAction::SendControl(control) = action {
            sender
                .receive_control(control)
                .unwrap_or_else(|error| panic!("acknowledgement failed: {error:?}"));
        }
    }
    assert_eq!(sender.last_acknowledged_local_sequence(), 1);
    assert!(sender.pending_local().is_none());
}

#[test]
fn native_notification_of_remote_text_is_not_sent_back() {
    let mut session = ClipboardSession::new(node("right"), node("left"));
    let payload = transfer("left", 4, "remote text");
    session
        .receive_control(ClipboardControl::Offered(payload.offer()))
        .and_then(|_| session.receive_transfer(payload.clone()))
        .and_then(|_| session.confirm_applied(payload.generation()))
        .unwrap_or_else(|error| panic!("remote application failed: {error:?}"));

    assert_eq!(
        session.local_changed(String::from("remote text")),
        Ok(Vec::new())
    );
    assert!(matches!(
        session.local_changed(String::from("new local text")),
        Ok(actions) if matches!(
            actions.as_slice(),
            [ClipboardAction::SendControl(_), ClipboardAction::SendTransfer(_)]
        )
    ));
}

#[test]
fn newest_complete_generation_waits_behind_native_application() {
    let mut session = ClipboardSession::new(node("right"), node("left"));
    let first = transfer("left", 1, "first");
    let latest = transfer("left", 3, "latest");

    assert_eq!(
        session.receive_control(ClipboardControl::Offered(first.offer())),
        Ok(Vec::new())
    );
    assert_eq!(
        session.receive_transfer(first.clone()),
        Ok(vec![ClipboardAction::ApplyRemote(first.clone())])
    );
    assert_eq!(
        session.receive_transfer(transfer("left", 2, "discarded")),
        Ok(Vec::new())
    );
    assert_eq!(
        session.receive_control(ClipboardControl::Offered(latest.offer())),
        Ok(Vec::new())
    );
    assert_eq!(session.receive_transfer(latest.clone()), Ok(Vec::new()));

    assert_eq!(
        session.confirm_applied(first.generation()),
        Ok(vec![
            ClipboardAction::SendControl(ClipboardControl::Applied {
                generation: first.generation().clone(),
            }),
            ClipboardAction::ApplyRemote(latest.clone()),
        ])
    );
    assert_eq!(session.pending_application(), Some(latest.generation()));
}

#[test]
fn stale_incomplete_generation_cannot_replace_a_newer_one() {
    let mut session = ClipboardSession::new(node("right"), node("left"));
    let old = transfer("left", 1, "old");
    let new = transfer("left", 2, "new");

    assert_eq!(session.receive_transfer(old), Ok(Vec::new()));
    assert_eq!(session.receive_transfer(new.clone()), Ok(Vec::new()));
    assert_eq!(
        session.receive_control(ClipboardControl::Offered(
            transfer("left", 1, "old").offer()
        )),
        Ok(Vec::new())
    );
    assert_eq!(
        session.receive_control(ClipboardControl::Offered(new.offer())),
        Ok(vec![ClipboardAction::ApplyRemote(new)])
    );
}

#[test]
fn rejects_payload_that_does_not_match_the_offer() {
    let mut session = ClipboardSession::new(node("right"), node("left"));
    let offered = transfer("left", 1, "hello");
    let modified = transfer("left", 1, "jello");

    assert_eq!(
        session.receive_control(ClipboardControl::Offered(offered.offer())),
        Ok(Vec::new())
    );
    assert!(matches!(
        session.receive_transfer(modified),
        Err(ClipboardSessionError::Clipboard(_))
    ));
    assert!(session.pending_application().is_none());
}

#[test]
fn rejects_generations_owned_by_another_node() {
    let mut session = ClipboardSession::new(node("right"), node("left"));
    let payload = transfer("third", 1, "hello");

    assert_eq!(
        session.receive_transfer(payload),
        Err(ClipboardSessionError::UnexpectedGenerationOwner {
            expected: node("left"),
            received: node("third"),
        })
    );
}

#[test]
fn rejects_acknowledgement_for_unsent_generation() {
    let mut session = ClipboardSession::new(node("left"), node("right"));

    assert_eq!(
        session.receive_control(ClipboardControl::Applied {
            generation: generation("left", 1),
        }),
        Err(ClipboardSessionError::AcknowledgementBeyondSent {
            acknowledged: 1,
            last_sent: 0,
        })
    );
}

#[test]
fn confirmations_must_fit_what_is_applied() {
    let mut session = ClipboardSession::new(node("right"), node("left"));
    assert_eq!(
        session.confirm_applied(&generation("left", 1)),
        Err(ClipboardSessionError::NoApplicationPending)
    );
    let payload = transfer("left", 2, "text");
    session
        .receive_control(ClipboardControl::Offered(payload.offer()))
        .and_then(|_| session.receive_transfer(payload))
        .unwrap_or_else(|error| panic!("receive failed: {error:?}"));
    assert_eq!(
        session.confirm_applied(&generation("left", 1)),
        Err(ClipboardSessionError::ApplicationGenerationMismatch {
            expected: generation("left", 2),
            received: generation("left", 1),
        })
    );
}

#[test]
fn conflicting_offers_and_transfers_are_refused() {
    let mut session = ClipboardSession::new(node("right"), node("left"));
    session
        .receive_control(ClipboardControl::Offered(
            transfer("left", 1, "one").offer(),
        ))
        .unwrap_or_else(|error| panic!("offer failed: {error:?}"));
    assert_eq!(
        session.receive_control(ClipboardControl::Offered(
            transfer("left", 1, "two").offer()
        )),
        Err(ClipboardSessionError::ConflictingOffer(generation(
            "left", 1
        )))
    );
    let mut session = ClipboardSession::new(node("right"), node("left"));
    session
        .receive_transfer(transfer("left", 1, "one"))
        .unwrap_or_else(|error| panic!("transfer failed: {error:?}"));
    assert_eq!(
        session.receive_transfer(transfer("left", 1, "two")),
        Err(ClipboardSessionError::ConflictingTransfer(generation(
            "left", 1
        )))
    );
}

#[test]
fn one_text_is_applied_at_a_time_from_the_first_call_on() {
    let mut session = ClipboardSession::new(node("left"), node("right"));
    let first = transfer("right", 1, "first");
    let second = transfer("right", 2, "second");
    assert_eq!(session.pending_application(), None);
    assert!(session
        .receive_control(ClipboardControl::Offered(first.offer()))
        .is_ok());
    assert_eq!(session.pending_application(), None);
    assert_eq!(
        session.receive_transfer(first.clone()),
        Ok(vec![ClipboardAction::ApplyRemote(first.clone())])
    );
    assert_eq!(session.pending_application(), Some(&generation("right", 1)));
    assert_eq!(session.receive_transfer(second.clone()), Ok(Vec::new()));
    assert_eq!(
        session.receive_control(ClipboardControl::Offered(second.offer())),
        Ok(Vec::new())
    );
    assert!(session.confirm_applied(&generation("right", 2)).is_err());
    assert_eq!(session.pending_application(), Some(&generation("right", 1)));
    let actions = session
        .confirm_applied(&generation("right", 1))
        .unwrap_or_else(|error| panic!("confirmation failed: {error:?}"));
    assert_eq!(actions[1], ClipboardAction::ApplyRemote(second));
    assert_eq!(session.pending_application(), Some(&generation("right", 2)));
    assert!(session.confirm_applied(&generation("right", 2)).is_ok());
    assert_eq!(session.pending_application(), None);
    assert!(session.confirm_applied(&generation("right", 2)).is_err());
}
