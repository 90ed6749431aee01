use tevir::domain::arrangement::{ScreenPlacement, Topology};
use tevir::domain::geometry::{Point, Rect, Size};
use tevir::domain::identity::NodeId;
use tevir::domain::input::{InputEvent, InputKind, KeyAction, PhysicalKey};
use tevir::domain::nonzero::NonZeroU32;
use tevir::domain::topology::Edge;
use tevir::protocol::message::{InputBatch, Session, MAX_INPUT_EVENTS_PER_BATCH};
use tevir::session::agent::{AgentAction, AgentError, AgentSession};
use tevir::session::coalesce::EventBuffer;
use tevir::session::controller::{
    ControllerAction, ControllerError, ControllerSession, MAX_PENDING_BATCHES_PER_PEER,
};

fn node(value: &str) -> NodeId {
    NodeId::new(value).unwrap_or_else(|error| panic!("invalid test node: {error:?}"))
}

fn size(width: u32, height: u32) -> Size {
    Size::new(
        NonZeroU32::new(width).unwrap_or(NonZeroU32::min_value()),
        NonZeroU32::new(height).unwrap_or(NonZeroU32::min_value()),
    )
}

fn event() -> InputEvent {
    InputEvent {
        elapsed_micros: 1,
        kind: InputKind::Key {
            key: PhysicalKey::new(0x07, 0x04),
            action: KeyAction::Press,
        },
    }
}

fn focus(epoch: u64, target: &str) -> Session {
    Session::FocusChanged {
        focus_epoch: epoch,
        target: node(target),
        entry_position: Point { x: 10, y: 20 },
    }
}

fn batch(epoch: u64, sequence: u64) -> Session {
    Session::Input(InputBatch {
        focus_epoch: epoch,
        sequence,
        events: vec![event()],
    })
}

fn focused_agent() -> AgentSession {
    let mut agent = AgentSession::new(node("agent"), size(1920, 1080));
    agent
        .handle(focus(2, "agent"))
        .unwrap_or_else(|error| panic!("focus failed: {error:?}"));
    agent
}

#[test]
fn acknowledges_only_after_native_application_is_confirmed() {
    let mut agent = focused_agent();

    let actions = agent
        .handle(batch(2, 1))
        .unwrap_or_else(|error| panic!("batch failed: {error:?}"));
    assert!(matches!(
        actions.as_slice(),
        [AgentAction::ApplyInput(InputBatch { sequence: 1, .. })]
    ));
    assert_eq!(agent.last_applied_sequence(), 0);

    let actions = agent
        .confirm_applied(1)
        .unwrap_or_else(|error| panic!("confirmation failed: {error:?}"));
    assert_eq!(
        actions,
        vec![AgentAction::Send(Session::InputAcknowledged {
            through_sequence: 1,
        })]
    );
    assert_eq!(agent.last_applied_sequence(), 1);
}

#[test]
fn rejects_stale_input_without_applying_it() {
    let mut agent = focused_agent();

    assert_eq!(
        agent.handle(batch(1, 1)),
        Err(AgentError::StaleInputEpoch {
            received: 1,
            current: 2,
        })
    );
    assert_eq!(agent.last_applied_sequence(), 0);
}

#[test]
fn duplicate_sequence_only_repeats_the_acknowledgement() {
    let mut agent = focused_agent();
    agent
        .handle(batch(2, 1))
        .and_then(|_| agent.confirm_applied(1))
        .unwrap_or_else(|error| panic!("initial batch failed: {error:?}"));

    assert_eq!(
        agent.handle(batch(2, 1)),
        Ok(vec![AgentAction::Send(Session::InputAcknowledged {
            through_sequence: 1,
        })])
    );
}

#[test]
fn rejects_a_sequence_gap() {
    let mut agent = focused_agent();

    assert_eq!(
        agent.handle(batch(2, 2)),
        Err(AgentError::InputSequenceGap {
            expected: 1,
            received: 2,
        })
    );
}

#[test]
fn newer_focus_releases_input_before_leaving_the_agent() {
    let mut agent = focused_agent();

    assert_eq!(
        agent.handle(focus(3, "controller")),
        Ok(vec![AgentAction::ReleaseAllInput])
    );
    assert_eq!(agent.active_focus_epoch(), None);
    assert!(matches!(
        agent.handle(batch(2, 1)),
        Err(AgentError::StaleInputEpoch { .. })
    ));
}

#[test]
fn display_change_invalidates_focus_until_a_new_epoch() {
    let mut agent = focused_agent();

    assert_eq!(
        agent.reconcile_display(size(2560, 1440)),
        vec![AgentAction::ReleaseAllInput]
    );
    assert_eq!(agent.active_focus_epoch(), None);
    assert_eq!(agent.handle(focus(2, "agent")), Ok(Vec::new()));
    assert!(matches!(
        agent.handle(batch(2, 1)),
        Err(AgentError::InactiveInputEpoch { .. })
    ));
    assert!(agent
        .handle(focus(3, "agent"))
        .is_ok_and(|actions| matches!(
            actions.as_slice(),
            [AgentAction::FocusEntered { .. }]
        )));
}

#[test]
fn display_change_with_the_same_bounds_still_invalidates_focus() {
    let mut agent = focused_agent();

    assert_eq!(
        agent.reconcile_display(size(1920, 1080)),
        vec![AgentAction::ReleaseAllInput]
    );
    assert_eq!(agent.active_focus_epoch(), None);
}

#[test]
fn disconnect_releases_input_and_closes_the_session() {
    let mut agent = focused_agent();

    assert_eq!(
        agent.connection_lost(),
        vec![AgentAction::ReleaseAllInput, AgentAction::CloseConnection]
    );
    assert_eq!(
        agent.handle(Session::Heartbeat { nonce: 7 }),
        Err(AgentError::SessionClosed)
    );
}

#[test]
fn rejects_an_entry_position_outside_the_display() {
    let mut agent = AgentSession::new(node("agent"), size(1920, 1080));

    assert!(matches!(
        agent.handle(Session::FocusChanged {
            focus_epoch: 2,
            target: node("agent"),
            entry_position: Point { x: 1920, y: 0 },
        }),
        Err(AgentError::EntryPositionOutsideDisplay { .. })
    ));
    assert_eq!(agent.active_focus_epoch(), None);
}

#[test]
fn controller_and_agent_complete_an_acknowledged_batch() {
    let topology = Topology::new(vec![
        ScreenPlacement::single(
            node("controller"),
            Rect::new(Point { x: -1920, y: 0 }, size(1920, 1080)),
        ),
        ScreenPlacement::single(
            node("agent"),
            Rect::new(Point { x: 0, y: 0 }, size(2560, 1440)),
        ),
    ])
    .unwrap_or_else(|error| panic!("topology failed: {error:?}"));
    let mut controller = ControllerSession::new(topology, node("controller"))
        .unwrap_or_else(|error| panic!("controller failed: {error:?}"));
    let mut agent = AgentSession::new(node("agent"), size(2560, 1440));

    let focus_message = controller
        .activate(Edge::Right, 540)
        .unwrap_or_else(|error| panic!("activation failed: {error:?}"))
        .into_iter()
        .find_map(message_for_agent)
        .unwrap_or_else(|| panic!("focus message missing"));
    assert!(agent.handle(focus_message).is_ok());

    controller
        .route_input(event())
        .unwrap_or_else(|error| panic!("routing failed: {error:?}"));
    let input_message = controller
        .flush()
        .unwrap_or_else(|error| panic!("flush failed: {error:?}"))
        .into_iter()
        .find_map(message_for_agent)
        .unwrap_or_else(|| panic!("input message missing"));
    assert!(matches!(
        agent.handle(input_message),
        Ok(actions) if matches!(
            actions.as_slice(),
            [AgentAction::ApplyInput(InputBatch { sequence: 1, .. })]
        )
    ));

    let acknowledgement = agent
        .confirm_applied(1)
        .unwrap_or_else(|error| panic!("confirmation failed: {error:?}"))
        .into_iter()
        .find_map(|action| match action {
            AgentAction::Send(Session::InputAcknowledged { through_sequence }) => {
                Some(through_sequence)
            }
            _ => None,
        })
        .unwrap_or_else(|| panic!("acknowledgement missing"));
    assert_eq!(
        controller.acknowledge(&node("agent"), acknowledgement),
        Ok(1)
    );
    assert_eq!(controller.pending_batches(&node("agent")), 0);
}

fn message_for_agent(action: ControllerAction) -> Option<Session> {
    match action {
        ControllerAction::Send { peer, message } if peer == node("agent") => Some(message),
        ControllerAction::Send { .. } | ControllerAction::ReleaseCapture => None,
    }
}

fn screen(node_id: &str, x: i32, y: i32, width: u32, height: u32) -> ScreenPlacement {
    ScreenPlacement::single(
        node(node_id),
        Rect::new(Point { x, y }, size(width, height)),
    )
}

fn topology() -> Topology {
    Topology::new(vec![
        screen("left", -1920, 0, 1920, 1080),
        screen("right", 0, 0, 2560, 1440),
    ])
    .unwrap_or_else(|error| panic!("test topology should be valid: {error:?}"))
}

fn relative(time: u64, dx: i64, dy: i64) -> InputEvent {
    InputEvent {
        elapsed_micros: time,
        kind: InputKind::PointerRelative {
            dx_micropixels: dx,
            dy_micropixels: dy,
        },
    }
}

fn key(time: u64, usage: u16) -> InputEvent {
    InputEvent {
        elapsed_micros: time,
        kind: InputKind::Key {
            key: PhysicalKey::new(0x07, usage),
            action: KeyAction::Press,
        },
    }
}

fn active_controller() -> ControllerSession {
    let mut controller = ControllerSession::new(topology(), node("left"))
        .unwrap_or_else(|error| panic!("controller creation failed: {error:?}"));
    controller
        .activate(Edge::Right, 540)
        .unwrap_or_else(|error| panic!("activation failed: {error:?}"));
    controller
}

#[test]
fn activation_routes_to_a_mixed_resolution_neighbor() {
    let mut controller = ControllerSession::new(topology(), node("left"))
        .unwrap_or_else(|error| panic!("controller creation failed: {error:?}"));

    let actions = controller
        .activate(Edge::Right, 540)
        .unwrap_or_else(|error| panic!("activation failed: {error:?}"));

    assert_eq!(controller.focus(), &node("right"));
    assert_eq!(controller.focus_position(), Point { x: 0, y: 540 });
    assert!(actions.iter().any(|action| {
        matches!(
            action,
            ControllerAction::Send {
                peer,
                message: Session::FocusChanged {
                    focus_epoch: 2,
                    target,
                    entry_position: Point { x: 0, y: 540 },
                },
            } if peer == &node("right") && target == &node("right")
        )
    }));
}

#[test]
fn batches_motion_without_crossing_key_boundaries() {
    let mut controller = active_controller();
    controller
        .route_input(relative(1, 100, 200))
        .unwrap_or_else(|error| panic!("routing failed: {error:?}"));
    controller
        .route_input(relative(2, 300, -50))
        .unwrap_or_else(|error| panic!("routing failed: {error:?}"));
    controller
        .route_input(key(3, 0x04))
        .unwrap_or_else(|error| panic!("routing failed: {error:?}"));
    let actions = controller
        .flush()
        .unwrap_or_else(|error| panic!("flush failed: {error:?}"));

    let batch = actions.iter().find_map(|action| match action {
        ControllerAction::Send {
            message: Session::Input(batch),
            ..
        } => Some(batch),
        _ => None,
    });
    let batch = batch.unwrap_or_else(|| panic!("input batch should be emitted"));
    assert_eq!(batch.events.len(), 2);
    assert_eq!(batch.events[0], relative(2, 400, 150));
    assert!(matches!(batch.events[1].kind, InputKind::Key { .. }));
}

#[test]
fn logical_cursor_accumulates_subpixel_motion() {
    let mut controller = active_controller();

    controller
        .route_input(relative(1, 500_000, 250_000))
        .unwrap_or_else(|error| panic!("routing failed: {error:?}"));
    controller
        .route_input(relative(2, 500_000, 750_000))
        .unwrap_or_else(|error| panic!("routing failed: {error:?}"));

    assert_eq!(controller.focus_position(), Point { x: 1, y: 541 });
}

#[test]
fn crossing_back_to_local_releases_capture_and_drops_crossing_motion() {
    let mut controller = active_controller();

    let actions = controller
        .route_input(relative(10, -1_000_000, 0))
        .unwrap_or_else(|error| panic!("routing failed: {error:?}"));

    assert_eq!(controller.focus(), &node("left"));
    assert!(actions.contains(&ControllerAction::ReleaseCapture));
    assert!(!actions.iter().any(|action| {
        matches!(
            action,
            ControllerAction::Send {
                message: Session::Input(_),
                ..
            }
        )
    }));
}

#[test]
fn topology_change_flushes_old_epoch_before_broadcasting_the_new_one() {
    let mut controller = active_controller();
    controller
        .route_input(relative(1, 10, 10))
        .unwrap_or_else(|error| panic!("routing failed: {error:?}"));
    let changed = Topology::new(vec![
        screen("left", -1600, 0, 1600, 900),
        screen("right", 0, 0, 1920, 1080),
    ])
    .unwrap_or_else(|error| panic!("changed topology should be valid: {error:?}"));

    let actions = controller
        .reconcile_topology(changed)
        .unwrap_or_else(|error| panic!("reconcile failed: {error:?}"));

    assert!(matches!(
        actions.first(),
        Some(ControllerAction::Send {
            message: Session::Input(batch),
            ..
        }) if batch.focus_epoch == 2
    ));
    assert!(matches!(
        actions.last(),
        Some(ControllerAction::Send {
            message: Session::FocusChanged { focus_epoch: 3, .. },
            ..
        })
    ));
}

#[test]
fn acknowledgements_are_bounded_by_the_last_sent_sequence() {
    let mut controller = active_controller();
    controller
        .route_input(relative(1, 5, 5))
        .unwrap_or_else(|error| panic!("routing failed: {error:?}"));
    controller
        .flush()
        .unwrap_or_else(|error| panic!("flush failed: {error:?}"));

    assert_eq!(controller.acknowledge(&node("right"), 1), Ok(1));
    assert!(matches!(
        controller.acknowledge(&node("right"), 2),
        Err(ControllerError::AcknowledgementBeyondSent { .. })
    ));
}

#[test]
fn backpressure_retains_the_next_batch_until_an_acknowledgement() {
    let mut controller = active_controller();
    for sequence in 0..MAX_PENDING_BATCHES_PER_PEER {
        controller
            .route_input(relative(sequence as u64, 1, 0))
            .and_then(|_| controller.flush())
            .unwrap_or_else(|error| panic!("batch {sequence} failed: {error:?}"));
    }

    controller
        .route_input(relative(100, 1, 0))
        .unwrap_or_else(|error| panic!("buffering should succeed: {error:?}"));
    assert!(matches!(
        controller.flush(),
        Err(ControllerError::Backpressure { .. })
    ));
    assert_eq!(controller.acknowledge(&node("right"), 1), Ok(1));
    assert!(controller.flush().is_ok_and(|actions| actions.len() == 1));
}

#[test]
fn backpressure_never_grows_a_batch_past_the_protocol_limit() {
    let mut controller = active_controller();
    for sequence in 0..MAX_PENDING_BATCHES_PER_PEER {
        controller
            .route_input(relative(sequence as u64, 1, 0))
            .and_then(|_| controller.flush())
            .unwrap_or_else(|error| panic!("batch {sequence} failed: {error:?}"));
    }

    for offset in 0..MAX_INPUT_EVENTS_PER_BATCH {
        let result = controller.route_input(key(100 + offset as u64, 0x04));
        if offset + 1 == MAX_INPUT_EVENTS_PER_BATCH {
            assert!(matches!(result, Err(ControllerError::Backpressure { .. })));
        } else {
            assert!(result.is_ok());
        }
    }
    assert!(matches!(
        controller.route_input(key(1_000, 0x05)),
        Err(ControllerError::Backpressure { .. })
    ));

    assert_eq!(controller.acknowledge(&node("right"), 1), Ok(1));
    let actions = controller
        .flush()
        .unwrap_or_else(|error| panic!("retained batch failed: {error:?}"));
    assert!(matches!(
        actions.as_slice(),
        [ControllerAction::Send {
            message: Session::Input(batch),
            ..
        }] if batch.events.len() == MAX_INPUT_EVENTS_PER_BATCH
    ));
}

#[test]
fn coalesces_only_adjacent_pointer_motion() {
    let mut buffer = EventBuffer::default();
    buffer.push(relative(1, 10, -5));
    buffer.push(relative(2, 20, 8));
    buffer.push(key(3, 0x04));
    buffer.push(relative(4, 2, 3));

    let events = buffer.take();
    assert_eq!(events.len(), 3);
    assert_eq!(events[0], relative(2, 30, 3));
    assert!(matches!(events[1].kind, InputKind::Key { .. }));
    assert_eq!(events[2], relative(4, 2, 3));
    assert!(buffer.is_empty());
}

#[test]
fn controllers_need_a_screen_and_a_neighbor() {
    assert!(matches!(
        ControllerSession::new(topology(), node("elsewhere")),
        Err(ControllerError::LocalNodeMissing(_))
    ));
    let mut controller = ControllerSession::new(topology(), node("left"))
        .unwrap_or_else(|error| panic!("controller creation failed: {error:?}"));
    assert_eq!(
        controller.activate(Edge::Left, 540),
        Err(ControllerError::NoAdjacentScreen {
            edge: Edge::Left,
            offset: 540
        })
    );
    assert_eq!(
        controller.route_input(event()),
        Err(ControllerError::InputWhileLocal)
    );
    assert_eq!(controller.focus(), &node("left"));
    assert_eq!(controller.focus_epoch(), 1);
}

#[test]
fn returning_to_local_gives_up_the_remote_focus() {
    let mut controller = active_controller();
    let actions = controller
        .return_to_local()
        .unwrap_or_else(|error| panic!("return failed: {error:?}"));
    assert!(actions.contains(&ControllerAction::ReleaseCapture));
    assert_eq!(controller.focus(), &node("left"));
    let mut active = active_controller();
    assert_eq!(
        active.activate(Edge::Right, 540),
        Err(ControllerError::CaptureAlreadyActive(node("right")))
    );
    assert!(matches!(
        active.acknowledge(&node("stranger"), 1),
        Err(ControllerError::UnknownPeer(_))
    ));
}

#[test]
fn agents_ignore_input_that_was_not_pending() {
    let mut agent = focused_agent();
    assert!(agent.confirm_applied(1).is_err());
    agent
        .handle(batch(2, 1))
        .unwrap_or_else(|error| panic!("batch failed: {error:?}"));
    assert!(agent.confirm_applied(2).is_err());
    assert_eq!(agent.last_applied_sequence(), 0);
}

#[test]
fn agents_answer_heartbeats() {
    let mut agent = focused_agent();
    assert_eq!(
        agent.handle(Session::Heartbeat { nonce: 7 }),
        Ok(vec![AgentAction::Send(Session::HeartbeatAcknowledged {
            nonce: 7
        })])
    );
    assert_eq!(
        agent.handle(Session::DisplayChanged {
            size: size(10, 10),
            monitor_count: NonZeroU32::min_value(),
        }),
        Err(AgentError::UnexpectedDisplayChange)
    );
}

fn batches(actions: &[ControllerAction]) -> Vec<InputBatch> {
    actions
        .iter()
        .filter_map(|action| match action {
            ControllerAction::Send {
                message: Session::Input(batch),
                ..
            } => Some(InputBatch {
                focus_epoch: batch.focus_epoch,
                sequence: batch.sequence,
                events: batch.events.clone(),
            }),
            _ => None,
        })
        .collect()
}

#[test]
fn focus_epochs_count_the_changes_of_focus() {
    let mut controller = ControllerSession::new(topology(), node("left"))
        .unwrap_or_else(|error| panic!("controller creation failed: {error:?}"));
    assert_eq!(controller.focus_epoch(), 1);
    assert!(controller.route_input(key(1, 0x04)).is_err());
    assert!(controller.activate(Edge::Left, 0).is_err());
    assert_eq!(controller.focus_epoch(), 1);
    assert!(controller.activate(Edge::Right, 540).is_ok());
    assert_eq!(controller.focus_epoch(), 2);
    assert!(controller.activate(Edge::Right, 540).is_err());
    assert!(controller.route_input(key(2, 0x04)).is_ok());
    assert!(controller.acknowledge(&node("right"), 1).is_err());
    assert_eq!(controller.focus_epoch(), 2);
    let actions = controller
        .reconcile_topology(topology())
        .unwrap_or_else(|error| panic!("reconciling failed: {error:?}"));
    assert_eq!(controller.focus_epoch(), 3);
    assert_eq!(batches(&actions)[0].focus_epoch, 2);
    assert!(actions.iter().all(|action| !matches!(
        action,
        ControllerAction::Send {
            message: Session::FocusChanged { focus_epoch, .. },
            ..
        } if *focus_epoch != 3
    )));
    assert!(controller.route_input(relative(3, -1_000_000_000, 0)).is_ok());
    assert_eq!(controller.focus(), &node("left"));
    assert_eq!(controller.focus_epoch(), 4);
    assert!(controller.return_to_local().is_ok());
    assert_eq!(controller.focus_epoch(), 4);
}

#[test]
fn routed_input_goes_out_whole() {
    let mut controller = active_controller();
    let mut returned = Vec::new();
    let mut routed = Vec::new();
    for index in 0..1200u64 {
        let event = if index % 3 == 0 {
            key(index, 0x04)
        } else {
            relative(index, 1, 2)
        };
        routed.push(event);
        returned.extend(
            controller
                .route_input(event)
                .unwrap_or_else(|error| panic!("routing failed: {error:?}")),
        );
    }
    returned.extend(
        controller
            .flush()
            .unwrap_or_else(|error| panic!("flush failed: {error:?}")),
    );
    let sent = batches(&returned);
    assert_eq!(sent.len(), 2);
    assert!(sent
        .iter()
        .all(|batch| (1..=MAX_INPUT_EVENTS_PER_BATCH).contains(&batch.events.len())));
    let events: Vec<InputEvent> = sent.into_iter().flat_map(|batch| batch.events).collect();
    let keys = |events: &[InputEvent]| -> Vec<InputEvent> {
        events
            .iter()
            .copied()
            .filter(|event| matches!(event.kind, InputKind::Key { .. }))
            .collect()
    };
    assert_eq!(keys(&events), keys(&routed));
    let distance = |events: &[InputEvent]| -> (i64, i64) {
        events.iter().fold((0, 0), |(x, y), event| match event.kind {
            InputKind::PointerRelative {
                dx_micropixels,
                dy_micropixels,
            } => (x + dx_micropixels, y + dy_micropixels),
            _ => (x, y),
        })
    };
    assert_eq!(distance(&events), (800, 1600));
    assert_eq!(distance(&events), distance(&routed));
    assert_eq!(events[1], relative(2, 2, 4));
}

#[test]
fn pending_batches_are_those_not_acknowledged() {
    let mut controller = active_controller();
    let right = node("right");
    let mut sent = Vec::new();
    for index in 0..5 {
        assert!(controller.route_input(key(index, 0x04)).is_ok());
        let actions = controller
            .flush()
            .unwrap_or_else(|error| panic!("flush failed: {error:?}"));
        sent.extend(batches(&actions));
    }
    assert_eq!(controller.pending_batches(&right), 5);
    assert!(controller.acknowledge(&right, 3).is_ok());
    assert!(controller.acknowledge(&right, 2).is_ok());
    assert!(controller.acknowledge(&right, 9).is_err());
    assert_eq!(controller.pending_batches(&right), 2);
    assert!(controller.return_to_local().is_ok());
    assert!(controller.activate(Edge::Right, 540).is_ok());
    assert!(controller.route_input(key(9, 0x04)).is_ok());
    let actions = controller
        .flush()
        .unwrap_or_else(|error| panic!("flush failed: {error:?}"));
    sent.extend(batches(&actions));
    let numbers: Vec<u64> = sent.iter().map(|batch| batch.sequence).collect();
    assert_eq!(numbers, vec![1, 2, 3, 4, 5, 6]);
    let epochs: Vec<u64> = sent.iter().map(|batch| batch.focus_epoch).collect();
    assert_eq!(epochs, vec![2, 2, 2, 2, 2, 4]);
    assert_eq!(controller.pending_batches(&right), 3);
    assert_eq!(controller.pending_batches(&node("left")), 0);
    assert_eq!(controller.pending_batches(&node("stranger")), 0);
    assert!(controller.reset_peer(&right).is_ok());
    assert_eq!(controller.pending_batches(&right), 0);
}
