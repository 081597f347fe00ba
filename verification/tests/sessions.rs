use nexkvm::arbitration::arbitration_envelope;
use nexkvm::arbitration::begin_arbitration;
use nexkvm::arbitration::conclude_accepted;
use nexkvm::arbitration::decide;
use nexkvm::arbitration::decode_arbitration_decision;
use nexkvm::arbitration::follow;
use nexkvm::arbitration::is_before;
use nexkvm::arbitration::on_acknowledgement_lost;
use nexkvm::arbitration::on_answer_sent;
use nexkvm::arbitration::on_decision_sent;
use nexkvm::arbitration::AfterDecision;
use nexkvm::arbitration::ArbitrationDecision;
use nexkvm::arbitration::ArbitrationError;
use nexkvm::arbitration::ArbitrationOutcome;
use nexkvm::arbitration::ArbitrationStart;
use nexkvm::connection::AcceptErrorBackoff;
use nexkvm::connection::ConnectionOrigin;
use nexkvm::connection::EndpointDial;
use nexkvm::connection::ExplicitConnectDriver;
use nexkvm::connection::InboundAdmission;
use nexkvm::connection::PeerConnectionContext;
use nexkvm::connection::SessionEvent;
use nexkvm::connection::SessionTracker;
use nexkvm::connection::MAX_ACCEPT_ERROR_BACKOFF_MILLIS;
use nexkvm::connection::MAX_PENDING_INBOUND_HANDSHAKES;
use nexkvm::input::at_handoff_edge;
use nexkvm::input::boundary_sample_for_edge;
use nexkvm::input::decode_input_event;
use nexkvm::input::drain_releases;
use nexkvm::input::encode_input_event;
use nexkvm::input::input_permissions_ready;
use nexkvm::input::plan_runtime;
use nexkvm::input::track_held_input;
use nexkvm::input::validate_input_event;
use nexkvm::input::HandoffEdge;
use nexkvm::input::InputEnvelope;
use nexkvm::input::InputEvent;
use nexkvm::input::InputRuntimePlan;
use nexkvm::input::InputRuntimeRole;
use nexkvm::input::InputSessionError;
use nexkvm::input::MouseButton;
use nexkvm::input_config::EdgeLoad;
use nexkvm::input_config::EdgeStep;
use nexkvm::input_config::EdgeWatch;
use nexkvm::input_share::session_result;
use nexkvm::input_share::ForwardNext;
use nexkvm::input_share::Injected;
use nexkvm::input_share::InjectNext;
use nexkvm::input_share::InputForwarder;
use nexkvm::input_share::InputInjection;
use nexkvm::input_share::InputTaskSupervisor;
use nexkvm::input_share::LinkedScreenInputShare;
use nexkvm::input_share::ShareOutput;
use nexkvm::input_share::ShutdownNext;
use nexkvm::input_share::SuppressionGuard;
use nexkvm::input_share::TaskEnd;
use nexkvm::lanes::close_when_lanes_stop;
use nexkvm::lanes::lease_after_routing;
use nexkvm::lanes::merge_peer_handlers;
use nexkvm::lanes::route;
use nexkvm::lanes::route_step;
use nexkvm::lanes::Lane;
use nexkvm::lanes::LaneMonitor;
use nexkvm::lanes::LeaseFate;
use nexkvm::lanes::MessageKind;
use nexkvm::lanes::RouteEvent;
use nexkvm::lanes::RouteStep;
use nexkvm::leases::InputForwarderGate;
use nexkvm::leases::PeerLeases;

fn pointer(x: f64, y: f64) -> InputEvent {
    InputEvent::PointerMove {
        x: x.to_bits(),
        y: y.to_bits(),
    }
}

fn relative(dx: f64, dy: f64) -> InputEvent {
    InputEvent::RelativeMove {
        dx: dx.to_bits(),
        dy: dy.to_bits(),
    }
}

fn scroll(dx: f64, dy: f64) -> InputEvent {
    InputEvent::Scroll {
        dx: dx.to_bits(),
        dy: dy.to_bits(),
    }
}

const LEFT: MouseButton = MouseButton(0);

#[test]
fn accept_error_backoff_is_bounded_and_resets_after_success() {
    let mut backoff = AcceptErrorBackoff::default();
    let first = backoff.next_delay();
    let second = backoff.next_delay();
    assert!(second > first);

    let mut last = second;
    for _ in 0..32 {
        last = backoff.next_delay();
    }
    assert_eq!(last, MAX_ACCEPT_ERROR_BACKOFF_MILLIS);

    backoff.reset();
    assert_eq!(backoff.next_delay(), first);
}

#[test]
fn inbound_admission_is_strictly_bounded() {
    let mut admission = InboundAdmission::new();
    for _ in 0..MAX_PENDING_INBOUND_HANDSHAKES {
        assert!(admission.try_admit());
    }
    assert!(!admission.try_admit());

    admission.release();
    assert!(admission.try_admit());
}

#[test]
fn dialling_counts_attempts_and_keeps_the_last_error() {
    let mut driver = ExplicitConnectDriver::new();
    driver.on_failed();
    driver.on_failed();
    assert_eq!(driver.on_connected(), 2);
    assert_eq!(driver.on_connected(), 0);
    let mut dial = EndpointDial::new();
    dial.on_attempt(Err("first"));
    assert!(dial.goes_on());
    dial.on_attempt(Err("second"));
    assert_eq!(dial.finish("nothing"), Err::<u8, &str>("second"));
    assert_eq!(EndpointDial::new().finish("nothing"), Err::<u8, &str>("nothing"));
    let mut answered = EndpointDial::new();
    answered.on_attempt(Err("first"));
    answered.on_attempt(Ok(2));
    assert!(!answered.goes_on());
    assert_eq!(answered.finish("nothing"), Ok(2));
}

#[test]
fn sessions_end_once_and_stay_ended() {
    let mut tracker = SessionTracker::new();
    tracker.observe(SessionEvent::Sent { ok: true });
    tracker.observe(SessionEvent::Received { ok: true });
    assert!(!tracker.ended);
    tracker.observe(SessionEvent::Received { ok: false });
    assert!(tracker.ended);
    tracker.observe(SessionEvent::Received { ok: true });
    assert!(tracker.ended);
    let context = PeerConnectionContext::new(ConnectionOrigin::Outbound);
    assert_eq!(context.origin(), ConnectionOrigin::Outbound);
    assert!(!context.session_ended());
    assert!(context.with_session_end(true).session_ended());
    assert!(!context.with_session_end(false).session_ended());
}

#[test]
fn target_role_starts_receiver_only_when_inject_is_ready() {
    assert_eq!(
        plan_runtime(InputRuntimeRole::Target, false, true),
        InputRuntimePlan {
            start_capture_forwarder: false,
            start_inject_receiver: true,
        }
    );
    assert_eq!(
        plan_runtime(InputRuntimeRole::Target, true, false),
        InputRuntimePlan {
            start_capture_forwarder: false,
            start_inject_receiver: false,
        }
    );
}

#[test]
fn source_role_starts_capture_only_when_capture_is_ready() {
    assert_eq!(
        plan_runtime(InputRuntimeRole::Source, true, false),
        InputRuntimePlan {
            start_capture_forwarder: true,
            start_inject_receiver: false,
        }
    );
    assert_eq!(
        plan_runtime(InputRuntimeRole::Source, false, true),
        InputRuntimePlan {
            start_capture_forwarder: false,
            start_inject_receiver: false,
        }
    );
}

#[test]
fn both_role_enables_each_direction_independently() {
    assert_eq!(
        plan_runtime(InputRuntimeRole::Both, true, false),
        InputRuntimePlan {
            start_capture_forwarder: true,
            start_inject_receiver: false,
        }
    );
    assert_eq!(
        plan_runtime(InputRuntimeRole::Both, false, true),
        InputRuntimePlan {
            start_capture_forwarder: false,
            start_inject_receiver: true,
        }
    );
}

#[test]
fn permissions_are_asked_of_the_roles_that_need_them() {
    assert!(input_permissions_ready(InputRuntimeRole::Disabled, false, false));
    assert!(!input_permissions_ready(InputRuntimeRole::Both, true, false));
    assert!(input_permissions_ready(InputRuntimeRole::Source, true, false));
    assert!(!input_permissions_ready(InputRuntimeRole::Target, true, false));
}

#[test]
fn input_forwarder_gate_allows_only_one_live_connection() {
    let mut gate = InputForwarderGate::new();

    assert!(gate.try_acquire(), "first connection owns capture");
    assert!(!gate.try_acquire(), "duplicate connection is rejected");

    gate.release();
    assert!(gate.try_acquire(), "capture is released after session end");
}

#[test]
fn suppression_guard_restores_local_cursor_when_forwarder_future_is_dropped() {
    let mut transitions = Vec::new();
    let mut guard = SuppressionGuard::new();
    transitions.extend(guard.set(true));
    transitions.extend(guard.set(true));
    transitions.extend(guard.give_up());
    transitions.extend(guard.give_up());

    assert_eq!(transitions, [true, false]);
}

#[test]
fn invalid_outbound_input_is_rejected_before_serialization() {
    assert_eq!(
        encode_input_event(7, pointer(f64::NAN, 0.5)),
        Err(InputSessionError::OutOfRange)
    );
}

fn input_message(kind: MessageKind, body: Option<InputEvent>) -> InputEnvelope {
    InputEnvelope {
        id: 1,
        version_supported: true,
        kind,
        body,
    }
}

#[test]
fn input_event_round_trips_through_envelope_body() {
    let event = InputEvent::KeyPress(0x04);
    let envelope = encode_input_event(7, event).unwrap();

    assert!(envelope.version_supported);
    assert_eq!(envelope.id, 7);
    assert_eq!(envelope.kind, MessageKind::Input);
    assert_eq!(decode_input_event(envelope).unwrap(), event);
}

#[test]
fn rejects_non_input_envelopes() {
    assert_eq!(
        decode_input_event(input_message(MessageKind::Clipboard, None)),
        Err(InputSessionError::UnexpectedKind(MessageKind::Clipboard))
    );
}

#[test]
fn rejects_out_of_range_peer_input_before_injection() {
    let invalid_events = [
        pointer(2.0, 0.5),
        relative(99.0, 0.0),
        InputEvent::RawMotion { dx: 100001, dy: 0 },
        scroll(0.0, 10001.0),
        InputEvent::KeyPress(65536),
    ];
    for event in invalid_events {
        assert_eq!(
            decode_input_event(input_message(MessageKind::Input, Some(event))),
            Err(InputSessionError::OutOfRange)
        );
    }
}

#[test]
fn input_at_its_bounds_passes() {
    for event in [
        pointer(0.0, 1.0),
        pointer(-0.0, 0.5),
        relative(4.0, -4.0),
        InputEvent::RawMotion {
            dx: 100000,
            dy: -100000,
        },
        scroll(-10000.0, 10000.0),
        InputEvent::KeyRelease(65535),
        InputEvent::ButtonPress(LEFT),
    ] {
        assert_eq!(validate_input_event(event), Ok(()));
        assert_eq!(
            decode_input_event(input_message(MessageKind::Input, Some(event))),
            Ok(event)
        );
    }
    for event in [
        pointer(-0.1, 0.5),
        pointer(0.5, f64::INFINITY),
        relative(f64::NEG_INFINITY, 0.0),
        InputEvent::RawMotion {
            dx: 0,
            dy: i32::MIN,
        },
        scroll(f64::NAN, 0.0),
    ] {
        assert_eq!(validate_input_event(event), Err(InputSessionError::OutOfRange));
    }
    assert_eq!(
        decode_input_event(input_message(MessageKind::Input, None)),
        Err(InputSessionError::Malformed)
    );
}

/// How the edge test reads on doubles.
fn near(edge: HandoffEdge, x: f64, y: f64) -> bool {
    match edge {
        HandoffEdge::Left => x <= 1.0 - 0.995,
        HandoffEdge::Right => x >= 0.995,
        HandoffEdge::Top => y <= 1.0 - 0.995,
        HandoffEdge::Bottom => y >= 0.995,
    }
}

#[test]
fn edges_are_touched_as_doubles_compare() {
    let edges = [
        HandoffEdge::Left,
        HandoffEdge::Right,
        HandoffEdge::Top,
        HandoffEdge::Bottom,
    ];
    let mut values = vec![0.0, -0.0, 1.0, -1.0, 0.5, f64::NAN, -f64::NAN, f64::INFINITY, f64::NEG_INFINITY, 5e-324, -5e-324];
    for pivot in [0.995f64, 1.0 - 0.995] {
        for delta in 0..4u64 {
            values.push(f64::from_bits(pivot.to_bits() + delta));
            values.push(f64::from_bits(pivot.to_bits() - delta));
        }
    }
    for edge in edges {
        for x in &values {
            for y in &values {
                assert_eq!(
                    at_handoff_edge(edge, x.to_bits(), y.to_bits()),
                    near(edge, *x, *y),
                    "{edge:?} {x} {y}"
                );
            }
        }
    }
}

#[test]
fn linked_screen_share_uses_controller_for_entry_motion_and_return() {
    let mut share = LinkedScreenInputShare::single_peer(HandoffEdge::Right, 41);

    assert_eq!(share.route(pointer(0.5, 0.5), ShareOutput::Idle), None);

    let entry = pointer(0.0, 0.25);
    assert_eq!(
        share.route(pointer(1.0, 0.25), ShareOutput::EnterRemote(entry)),
        Some(entry)
    );
    assert!(share.is_remote());

    let moved = pointer(0.2, 0.35);
    assert_eq!(
        share.route(relative(0.2, 0.1), ShareOutput::Forward(moved)),
        Some(moved)
    );

    assert_eq!(
        share.route(relative(-0.3, 0.0), ShareOutput::ReturnLocal),
        None
    );
    assert!(!share.is_remote());
}

#[test]
fn boundary_samples_cross_the_touched_edge() {
    let (x, y) = boundary_sample_for_edge(
        HandoffEdge::Right,
        (1727.0f64 / 1728.0).to_bits(),
        0.5f64.to_bits(),
        1727,
        500,
    );
    assert_ne!((x, y), (1727, 500));
    assert_eq!(
        boundary_sample_for_edge(
            HandoffEdge::Right,
            0.5f64.to_bits(),
            0.5f64.to_bits(),
            864,
            500
        ),
        (864, 500)
    );
}

#[test]
fn linked_screen_share_forwards_clicks_while_remote() {
    let mut share = LinkedScreenInputShare::single_peer(HandoffEdge::Right, 41);
    assert!(share
        .route(
            pointer(1.0, 0.5),
            ShareOutput::EnterRemote(pointer(0.0, 0.5))
        )
        .is_some());

    let press = InputEvent::ButtonPress(LEFT);
    let release = InputEvent::ButtonRelease(LEFT);
    assert_eq!(share.route(press, ShareOutput::Forward(press)), Some(press));
    assert_eq!(
        share.route(release, ShareOutput::Forward(release)),
        Some(release)
    );
}

#[test]
fn linked_screen_share_releases_held_inputs_when_returning_local() {
    let mut share = LinkedScreenInputShare::single_peer(HandoffEdge::Right, 41);
    let entry = pointer(0.0, 0.5);
    assert_eq!(
        share.route_events(pointer(1.0, 0.5), ShareOutput::EnterRemote(entry)),
        vec![entry]
    );
    let key = InputEvent::KeyPress(0xE1);
    assert_eq!(share.route_events(key, ShareOutput::Forward(key)), vec![key]);
    let press = InputEvent::ButtonPress(LEFT);
    assert_eq!(
        share.route_events(press, ShareOutput::Forward(press)),
        vec![press]
    );

    assert_eq!(
        share.route_events(relative(-0.1, 0.0), ShareOutput::ReturnLocal),
        vec![
            InputEvent::ButtonRelease(LEFT),
            InputEvent::KeyRelease(0xE1),
        ]
    );
    assert!(!share.is_remote());
}

#[test]
fn the_emergency_key_returns_focus_and_releases() {
    let mut share = LinkedScreenInputShare::single_peer(HandoffEdge::Right, 41);
    let local = InputEvent::KeyPress(41);
    assert!(share.route_events(local, ShareOutput::Idle).is_empty());
    share.route(pointer(1.0, 0.5), ShareOutput::EnterRemote(pointer(0.0, 0.5)));
    let key = InputEvent::KeyPress(0xE1);
    share.route(key, ShareOutput::Forward(key));
    assert_eq!(
        share.route_events(local, ShareOutput::Forward(local)),
        vec![InputEvent::KeyRelease(0xE1)]
    );
    assert!(!share.is_remote());
    assert!(!share.release_remote());
}

#[test]
fn held_inputs_are_released_in_reverse_order() {
    let mut held = Vec::new();
    track_held_input(&mut held, InputEvent::KeyPress(1));
    track_held_input(&mut held, InputEvent::KeyPress(1));
    track_held_input(&mut held, InputEvent::ButtonPress(LEFT));
    track_held_input(&mut held, InputEvent::KeyPress(2));
    track_held_input(&mut held, InputEvent::KeyRelease(1));
    track_held_input(&mut held, pointer(0.1, 0.1));
    assert_eq!(
        drain_releases(&mut held),
        vec![InputEvent::KeyRelease(2), InputEvent::ButtonRelease(LEFT)]
    );
    assert!(held.is_empty());
}

#[test]
fn the_forwarder_suppresses_while_remote_and_restores() {
    let mut forwarder = InputForwarder::new(HandoffEdge::Right, 41, 9);
    assert!(!forwarder.watches_focus(250));
    let entry = pointer(0.0, 0.5);
    let step = forwarder.on_event(pointer(1.0, 0.5), ShareOutput::EnterRemote(entry));
    assert_eq!(step.suppress, Some(true));
    assert_eq!(step.events, vec![entry]);
    let outcome = forwarder.after_send(step.pending.unwrap(), Ok(()));
    assert_eq!(outcome.next, ForwardNext::Continue);
    assert!(forwarder.watches_focus(250) && !forwarder.watches_focus(0));
    let press = InputEvent::ButtonPress(LEFT);
    let step = forwarder.on_event(press, ShareOutput::Forward(press));
    forwarder.after_send(step.pending.unwrap(), Ok(()));
    let step = forwarder.on_focus_timeout();
    assert_eq!(step.events, vec![InputEvent::ButtonRelease(LEFT)]);
    let mut changes: Vec<bool> = step.suppress.into_iter().collect();
    let outcome = forwarder.after_send(step.pending.unwrap(), Ok(()));
    changes.extend(outcome.suppress);
    assert_eq!(outcome.next, ForwardNext::Continue);
    assert_eq!(changes, [false]);
    assert!(!forwarder.share.is_remote());
}

#[test]
fn a_failed_send_restores_the_local_pointer() {
    let mut forwarder = InputForwarder::new(HandoffEdge::Right, 41, 9);
    let step = forwarder.on_event(
        pointer(1.0, 0.5),
        ShareOutput::EnterRemote(pointer(0.0, 0.5)),
    );
    let outcome = forwarder.after_send(step.pending.unwrap(), Err(InputSessionError::SendTimedOut));
    assert_eq!(
        outcome.next,
        ForwardNext::CloseAndFail(InputSessionError::SendTimedOut)
    );
    assert_eq!(outcome.suppress, Some(false));
    assert_eq!(forwarder.ended, Some(outcome.next));
}

#[test]
fn messages_go_out_under_one_identifier_after_the_other() {
    let mut forwarder = InputForwarder::new(HandoffEdge::Right, 41, u64::MAX);
    let step = forwarder.on_event(
        pointer(1.0, 0.5),
        ShareOutput::EnterRemote(pointer(0.0, 0.5)),
    );
    assert_eq!(forwarder.envelope_for(step.events[0]).unwrap().id, u64::MAX);
    forwarder.on_sent(step.events[0]);
    forwarder.after_send(step.pending.unwrap(), Ok(()));
    let key = InputEvent::KeyPress(4);
    let step = forwarder.on_event(key, ShareOutput::Idle);
    assert_eq!(forwarder.envelope_for(step.events[0]).unwrap().id, 0);
    assert_eq!(
        forwarder.envelope_for(pointer(2.0, 0.0)),
        Err(InputSessionError::OutOfRange)
    );
    forwarder.on_sent(step.events[0]);
    assert_eq!(forwarder.next_id, 1);
}

#[test]
fn topology_changes_release_and_apply_the_new_edge() {
    let mut forwarder = InputForwarder::new(HandoffEdge::Right, 41, 9);
    let step = forwarder.on_event(
        pointer(1.0, 0.5),
        ShareOutput::EnterRemote(pointer(0.0, 0.5)),
    );
    forwarder.after_send(step.pending.unwrap(), Ok(()));
    let key = InputEvent::KeyPress(4);
    let step = forwarder.on_event(key, ShareOutput::Forward(key));
    forwarder.after_send(step.pending.unwrap(), Ok(()));
    let step = forwarder.on_topology(HandoffEdge::Left);
    assert_eq!(step.events, vec![InputEvent::KeyRelease(4)]);
    assert_eq!(forwarder.share.edge, HandoffEdge::Left);
    assert!(!forwarder.share.is_remote());
}

#[test]
fn shutdown_and_capture_errors_release_what_is_held() {
    for shutdown in [true, false] {
        let mut forwarder = InputForwarder::new(HandoffEdge::Right, 41, 9);
        let step = forwarder.on_event(
            pointer(1.0, 0.5),
            ShareOutput::EnterRemote(pointer(0.0, 0.5)),
        );
        forwarder.after_send(step.pending.unwrap(), Ok(()));
        let key = InputEvent::KeyPress(4);
        let step = forwarder.on_event(key, ShareOutput::Forward(key));
        forwarder.after_send(step.pending.unwrap(), Ok(()));
        let step = if shutdown {
            forwarder.on_shutdown()
        } else {
            forwarder.on_capture_error()
        };
        assert_eq!(step.events, vec![InputEvent::KeyRelease(4)]);
        let outcome = forwarder.after_send(step.pending.unwrap(), Ok(()));
        let expected = if shutdown {
            ForwardNext::CloseAndFinish
        } else {
            ForwardNext::CloseAndFail(InputSessionError::CaptureFailed)
        };
        assert_eq!(outcome.next, expected);
        assert!(!forwarder.guard.suppressed);
    }
}

#[test]
fn injection_survives_failures_and_releases_at_the_end() {
    let mut injection = InputInjection::new();
    let key = InputEvent::KeyPress(4);
    let press = InputEvent::ButtonPress(LEFT);
    assert_eq!(
        injection.on_envelope(input_message(MessageKind::Input, Some(key))),
        InjectNext::Inject(key)
    );
    assert_eq!(
        injection.on_envelope(input_message(MessageKind::Input, Some(pointer(2.0, 0.0)))),
        InjectNext::End(Some(InputSessionError::OutOfRange))
    );
    assert_eq!(
        injection.on_injected(key, Injected::Done),
        InjectNext::Continue
    );
    assert_eq!(
        injection.on_injected(press, Injected::Done),
        InjectNext::Continue
    );
    assert_eq!(
        injection.on_injected(InputEvent::KeyPress(9), Injected::Failed),
        InjectNext::Continue
    );
    assert_eq!(
        injection.on_injected(InputEvent::KeyPress(9), Injected::PermissionDenied),
        InjectNext::End(Some(InputSessionError::PermissionDenied))
    );
    assert_eq!(injection.on_disconnected(true), InjectNext::End(None));
    assert_eq!(
        injection.on_disconnected(false),
        InjectNext::End(Some(InputSessionError::ConnectionFailed))
    );
    assert_eq!(
        injection.finish(),
        vec![InputEvent::ButtonRelease(LEFT), InputEvent::KeyRelease(4)]
    );
    assert_eq!(session_result(None, None), Ok(()));
    assert_eq!(
        session_result(None, Some(InputSessionError::ReleaseTimedOut)),
        Err(InputSessionError::ReleaseTimedOut)
    );
    assert_eq!(
        session_result(
            Some(InputSessionError::Malformed),
            Some(InputSessionError::ReleaseTimedOut)
        ),
        Err(InputSessionError::Malformed)
    );
}

#[test]
fn the_first_release_that_fails_is_reported() {
    let mut injection = InputInjection::new();
    assert_eq!(injection.on_shutdown_signal(Some(false)), InjectNext::Continue);
    assert!(injection.watches_shutdown && !injection.shutting_down);
    assert_eq!(injection.on_shutdown_signal(None), InjectNext::Continue);
    assert!(!injection.watches_shutdown && !injection.shutting_down);
    assert_eq!(injection.on_shutdown_signal(Some(true)), InjectNext::End(None));
    assert!(injection.shutting_down);
    injection.on_released(Some(Injected::Done));
    assert_eq!(injection.release_error, None);
    injection.on_released(None);
    injection.on_released(Some(Injected::Failed));
    injection.on_released(Some(Injected::PermissionDenied));
    assert_eq!(
        session_result(None, injection.release_error),
        Err(InputSessionError::ReleaseTimedOut)
    );
    for (outcome, error) in [
        (Injected::Failed, InputSessionError::InjectionFailed),
        (Injected::PermissionDenied, InputSessionError::PermissionDenied),
    ] {
        let mut injection = InputInjection::new();
        injection.on_released(Some(outcome));
        injection.on_released(None);
        assert_eq!(injection.release_error, Some(error));
    }
}

#[test]
fn no_task_starts_after_shutdown() {
    let mut supervisor = InputTaskSupervisor::new();
    assert!(supervisor.spawn(1, &vec![]));
    assert!(supervisor.spawn(2, &vec![1]));
    assert!(supervisor.spawn(3, &vec![]));
    assert!(!supervisor.signalled);
    supervisor.begin_shutdown();
    assert!(supervisor.signalled);
    assert_eq!(supervisor.next_task(), Ok(3));
    assert_eq!(supervisor.on_task_end(TaskEnd::Completed), ShutdownNext::Continue);
    assert!(supervisor.spawn(4, &vec![]));
    assert_eq!(supervisor.next_task(), Ok(2));
    assert_eq!(supervisor.on_task_end(TaskEnd::Completed), ShutdownNext::Continue);
    assert_eq!(supervisor.next_task(), Ok(4));
    assert_eq!(supervisor.on_task_end(TaskEnd::Completed), ShutdownNext::Continue);
    assert_eq!(supervisor.next_task(), Err(true));
    assert!(!supervisor.spawn(5, &vec![]));

    let mut slow = InputTaskSupervisor::new();
    for task in 1..4 {
        assert!(slow.spawn(task, &vec![]));
    }
    slow.begin_shutdown();
    assert_eq!(slow.next_task(), Ok(3));
    assert!(slow.spawn(4, &vec![]));
    assert_eq!(
        slow.on_task_end(TaskEnd::TimedOut),
        ShutdownNext::AbortAll(vec![3, 1, 2, 4])
    );
    assert!(!slow.spawn(5, &vec![]));
    assert_eq!(slow.next_task(), Err(false));
    slow.begin_shutdown();
    assert_eq!(slow.next_task(), Err(true));

    let mut failing = InputTaskSupervisor::new();
    assert!(failing.spawn(1, &vec![]));
    failing.begin_shutdown();
    assert_eq!(failing.next_task(), Ok(1));
    assert_eq!(failing.on_task_end(TaskEnd::Failed), ShutdownNext::Continue);
    assert_eq!(failing.next_task(), Err(false));
}

#[test]
fn valid_reload_is_published_and_invalid_config_keeps_last_good_edge() {
    let mut watch = EdgeWatch::new(HandoffEdge::Right);
    assert_eq!(
        watch.on_load(EdgeLoad::Loaded(HandoffEdge::Left)),
        EdgeStep::Publish(HandoffEdge::Left)
    );
    assert_eq!(watch.edge, HandoffEdge::Left);
    assert_eq!(
        watch.on_load(EdgeLoad::Failed("invalid table".into())),
        EdgeStep::Warn
    );
    assert_eq!(watch.edge, HandoffEdge::Left);
    assert_eq!(
        watch.on_load(EdgeLoad::Failed("invalid table".into())),
        EdgeStep::Nothing
    );
    assert_eq!(
        watch.on_load(EdgeLoad::Loaded(HandoffEdge::Left)),
        EdgeStep::Nothing
    );
}

#[test]
fn one_side_decides_and_the_other_follows() {
    let a = vec![1u8; 32];
    let b = vec![2u8; 32];
    assert!(is_before(&a, &b) && !is_before(&b, &a) && !is_before(&a, &a));
    let start_a = begin_arbitration(&a, Some(&b), ConnectionOrigin::Outbound);
    let start_b = begin_arbitration(&b, Some(&a), ConnectionOrigin::Inbound);
    let decides = |start: &ArbitrationStart| matches!(start, ArbitrationStart::Decide { .. });
    assert!(decides(&start_a) != decides(&start_b));
    assert_eq!(
        begin_arbitration(&a, None, ConnectionOrigin::Inbound),
        ArbitrationStart::Refuse(ArbitrationError::Unauthenticated)
    );
    assert_eq!(
        begin_arbitration(&a, Some(&a), ConnectionOrigin::Inbound),
        ArbitrationStart::Refuse(ArbitrationError::SelfIdentity)
    );
}

#[test]
fn crossing_dials_leave_one_session() {
    let a = vec![1u8; 32];
    let b = vec![2u8; 32];
    let mut at_a = PeerLeases::new();
    let mut at_b = PeerLeases::new();
    let first = decide(&mut at_a, &b);
    assert_eq!(first, ArbitrationDecision::Accept);
    assert_eq!(decide(&mut at_a, &b), ArbitrationDecision::Reject);
    let (answer, outcome) = follow(&mut at_b, &a, Ok(first));
    assert_eq!(answer, Some(ArbitrationDecision::AcceptAck));
    assert_eq!(outcome, ArbitrationOutcome::FanOut);
    assert_eq!(
        conclude_accepted(&mut at_a, &b, Ok(ArbitrationDecision::AcceptAck)),
        ArbitrationOutcome::FanOut
    );
    let (answer, outcome) = follow(&mut at_b, &a, Ok(ArbitrationDecision::Reject));
    assert_eq!(answer, None);
    assert_eq!(outcome, ArbitrationOutcome::Close);
    let (answer, outcome) = follow(&mut at_b, &a, Ok(ArbitrationDecision::Accept));
    assert_eq!(answer, Some(ArbitrationDecision::RejectAck));
    assert_eq!(outcome, ArbitrationOutcome::Close);
    let (answer, outcome) = follow(&mut at_b, &a, Ok(ArbitrationDecision::AcceptAck));
    assert_eq!(answer, None);
    assert_eq!(
        outcome,
        ArbitrationOutcome::CloseWithError(ArbitrationError::UnexpectedAcknowledgement)
    );
    at_a.release(&b);
    assert_eq!(decide(&mut at_a, &b), ArbitrationDecision::Accept);
    assert!(!matches!(
        conclude_accepted(&mut at_a, &b, Ok(ArbitrationDecision::RejectAck)),
        ArbitrationOutcome::FanOut
    ));
    assert_eq!(decide(&mut at_a, &b), ArbitrationDecision::Accept);
}

#[test]
fn a_lost_message_gives_the_lease_back() {
    let peer = vec![2u8; 32];
    let mut leases = PeerLeases::new();
    let accepted = decide(&mut leases, &peer);
    assert_eq!(
        on_decision_sent(&mut leases, &peer, accepted, true),
        AfterDecision::AwaitAcknowledgement
    );
    let rejected = decide(&mut leases, &peer);
    assert_eq!(
        on_decision_sent(&mut leases, &peer, rejected, true),
        AfterDecision::Leave(ArbitrationOutcome::Close)
    );
    assert_eq!(
        on_decision_sent(&mut leases, &peer, rejected, false),
        AfterDecision::Leave(ArbitrationOutcome::CloseUnreachable)
    );
    assert!(!leases.try_acquire(&peer));
    assert_eq!(
        on_decision_sent(&mut leases, &peer, accepted, false),
        AfterDecision::Leave(ArbitrationOutcome::CloseUnreachable)
    );
    assert_eq!(decide(&mut leases, &peer), ArbitrationDecision::Accept);
    assert_eq!(
        on_acknowledgement_lost(&mut leases, &peer),
        ArbitrationOutcome::CloseUnreachable
    );
    let (_, outcome) = follow(&mut leases, &peer, Ok(ArbitrationDecision::Accept));
    assert_eq!(
        on_answer_sent(&mut leases, &peer, outcome, true),
        ArbitrationOutcome::FanOut
    );
    assert!(!leases.try_acquire(&peer));
    assert_eq!(
        on_answer_sent(&mut leases, &peer, ArbitrationOutcome::Close, false),
        ArbitrationOutcome::CloseUnreachable
    );
    assert!(!leases.try_acquire(&peer));
    assert_eq!(
        on_answer_sent(&mut leases, &peer, outcome, false),
        ArbitrationOutcome::CloseUnreachable
    );
    assert!(leases.try_acquire(&peer));
}

#[test]
fn decisions_are_written_and_read_back() {
    for decision in [
        ArbitrationDecision::Accept,
        ArbitrationDecision::Reject,
        ArbitrationDecision::AcceptAck,
        ArbitrationDecision::RejectAck,
    ] {
        let envelope = arbitration_envelope(decision);
        assert_eq!(decode_arbitration_decision(&envelope), Ok(decision));
        let mut longer = envelope.clone();
        longer.body.push(0);
        assert!(decode_arbitration_decision(&longer).is_err());
        let mut other = envelope.clone();
        other.is_handshake = false;
        assert!(decode_arbitration_decision(&other).is_err());
        let mut old = envelope;
        old.version_supported = false;
        assert!(decode_arbitration_decision(&old).is_err());
    }
}

#[test]
fn messages_reach_the_one_lane_that_takes_them() {
    let lanes = merge_peer_handlers(true, true, true, true).unwrap();
    let lane = |kind: MessageKind| route(&lanes, kind).map(|index| lanes[index].lane);
    assert_eq!(lane(MessageKind::Input), Some(Lane::Input));
    assert_eq!(lane(MessageKind::Clipboard), Some(Lane::Clipboard));
    assert_eq!(lane(MessageKind::FileTransfer), Some(Lane::FileTransfer));
    assert_eq!(lane(MessageKind::Handshake), None);
    assert_eq!(lane(MessageKind::Other(9)), None);
    let sending = merge_peer_handlers(true, false, false, true).unwrap();
    assert_eq!(route(&sending, MessageKind::Input), None);
    assert!(merge_peer_handlers(false, false, false, false).is_none());
    assert_eq!(route_step(RouteEvent::Delivered), RouteStep::Continue);
    assert_eq!(route_step(RouteEvent::NoLane), RouteStep::Continue);
    assert_ne!(route_step(RouteEvent::AllLanesStopped), RouteStep::Continue);
    assert_eq!(route_step(RouteEvent::AllLanesStopped), RouteStep::CloseAndEnd);
    assert!(close_when_lanes_stop(false, 2));
    assert!(!close_when_lanes_stop(true, 2));
    assert!(!close_when_lanes_stop(false, 0));
    assert_eq!(lease_after_routing(false, 2, false), LeaseFate::RetainUntilLanesStop);
    assert_eq!(lease_after_routing(false, 2, true), LeaseFate::Release);
    assert_eq!(lease_after_routing(true, 2, false), LeaseFate::Release);
    let mut monitor = LaneMonitor::new(2);
    assert!(!monitor.on_lane_stopped());
    assert!(monitor.on_lane_stopped());
    let mut silent = LaneMonitor::new(2);
    silent.on_channel_closed();
    assert_eq!(silent.completed, 2);
}

#[test]
fn linked_screen_share_hands_off_from_a_clamped_last_display_pixel() {
    let mut share = LinkedScreenInputShare::single_peer(HandoffEdge::Right, 41);
    let last_pixel_x = 1727.0 / 1728.0;
    assert!(at_handoff_edge(
        HandoffEdge::Right,
        f64::to_bits(last_pixel_x),
        0.5f64.to_bits()
    ));

    assert_eq!(
        share.route(
            pointer(last_pixel_x, 0.5),
            ShareOutput::EnterRemote(pointer(0.0, 0.5))
        ),
        Some(pointer(0.0, 0.5))
    );
    assert!(share.is_remote());
}

#[test]
fn linked_screen_share_hands_off_at_each_clamped_edge() {
    let cases = [
        (HandoffEdge::Left, (0.0, 0.25), pointer(1.0, 0.25)),
        (HandoffEdge::Right, (1727.0 / 1728.0, 0.25), pointer(0.0, 0.25)),
        (HandoffEdge::Top, (0.25, 0.0), pointer(0.25, 1.0)),
        (HandoffEdge::Bottom, (0.25, 1116.0 / 1117.0), pointer(0.25, 0.0)),
    ];

    for (edge, (x, y), expected) in cases {
        assert!(
            at_handoff_edge(edge, f64::to_bits(x), f64::to_bits(y)),
            "edge: {edge:?}"
        );
        let mut share = LinkedScreenInputShare::single_peer(edge, 41);
        assert_eq!(
            share.route(pointer(x, y), ShareOutput::EnterRemote(expected)),
            Some(expected),
            "edge: {edge:?}"
        );
        assert!(share.is_remote(), "edge: {edge:?}");
    }
}
