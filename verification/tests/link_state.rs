//! The link state machines, over every pair of state and event.

use ble_gatt::backend::link_state::{
    CentralEvent, CentralLink, PeripheralEvent, PeripheralLink, RadioEffect, RadioEvent,
    RadioState, TearDown, DIAL_WINDOW, DISCONNECT_WINDOW, DRAIN_WINDOW,
};
use ble_gatt::clock::Instant;

fn t0() -> Instant {
    1_000_000_000_000
}

// ---- RadioState ----------------------------------------------------

#[test]
fn powering_off_invalidates_links() {
    let (state, effects) = RadioState::On.apply(RadioEvent::PoweredOff, t0());
    assert_eq!(state, RadioState::Off);
    assert_eq!(effects, vec![RadioEffect::InvalidateAllLinks]);
}

#[test]
fn powering_back_on_recovers_without_an_effect() {
    let (state, effects) = RadioState::Off.apply(RadioEvent::PoweredOn, t0());
    assert_eq!(state, RadioState::On);
    assert!(effects.is_empty());
}

#[test]
fn unsupported_is_terminal() {
    let (state, _) = RadioState::Unsupported.apply(RadioEvent::PoweredOn, t0());
    assert_eq!(state, RadioState::Unsupported);
}

// ---- CentralLink -------------------------------------------------------

#[test]
fn a_full_dial_connect_disconnect_cycle() {
    let start = t0();
    let s = CentralLink::new();
    assert!(s.may_dial());

    let (s, e) = s.apply(CentralEvent::DialStarted { session: 7 }, start);
    assert_eq!(s, CentralLink::Dialing { since: start, session: 7 });
    assert!(e.is_empty());
    assert!(!s.may_dial(), "a dial is already in flight");

    let (s, e) = s.apply(CentralEvent::DialSucceeded, start);
    assert_eq!(s, CentralLink::Connected { session: 7 });
    assert!(e.is_empty());
    assert!(s.has_connection());

    let (s, e) = s.apply(CentralEvent::DisconnectRequested, start);
    assert_eq!(s, CentralLink::Disconnecting { since: start, session: 7 });
    assert!(e.is_empty());
    assert!(s.has_connection(), "still connected until the platform confirms");

    let (s, e) = s.apply(CentralEvent::DisconnectConfirmed, start);
    assert_eq!(s, CentralLink::Idle);
    assert!(e.is_empty(), "the caller asked and already knows — no event");
    assert!(!s.has_connection());
}

#[test]
fn an_unsolicited_drop_tells_the_consumer() {
    let (s, e) = CentralLink::Connected { session: 1 }.apply(CentralEvent::LinkDropped, t0());
    assert_eq!(s, CentralLink::Idle);
    assert_eq!(e, vec![TearDown { emit_disconnected: true }]);
}

#[test]
fn a_dial_that_never_completes_is_abandoned_without_an_event() {
    let start = t0();
    let dialing = CentralLink::Dialing { since: start, session: 1 };
    let (s, e) = dialing.apply(CentralEvent::Tick, start + DIAL_WINDOW);
    assert_eq!(s, CentralLink::Idle);
    assert_eq!(
        e,
        vec![TearDown { emit_disconnected: false }],
        "close the half-open dial, but the caller learns via connect()'s return"
    );
}

#[test]
fn radio_loss_from_connected_tears_down_and_emits() {
    let (s, e) = CentralLink::Connected { session: 1 }.apply(CentralEvent::RadioLost, t0());
    assert_eq!(s, CentralLink::RadioOff);
    assert_eq!(e, vec![TearDown { emit_disconnected: true }]);

    let (s, e) = s.apply(CentralEvent::RadioBack, t0());
    assert_eq!(s, CentralLink::Idle);
    assert!(e.is_empty());
}

#[test]
fn radio_loss_while_dialing_closes_the_attempt_silently() {
    let (s, e) = CentralLink::Dialing { since: t0(), session: 1 }
        .apply(CentralEvent::RadioLost, t0());
    assert_eq!(s, CentralLink::RadioOff);
    assert_eq!(e, vec![TearDown { emit_disconnected: false }]);
}

#[test]
fn radio_loss_while_idle_does_nothing_but_change_state() {
    let (s, e) = CentralLink::Idle.apply(CentralEvent::RadioLost, t0());
    assert_eq!(s, CentralLink::RadioOff);
    assert!(e.is_empty());
}

#[test]
fn draining_retries_until_cleanup_confirms() {
    let start = t0();
    let (s, e) = CentralLink::Idle.apply(CentralEvent::CleanupStarted, start);
    assert_eq!(s, CentralLink::Draining { since: start });
    assert!(e.is_empty());

    // Timed out: retry, re-arm the window, still quarantined.
    let (s, e) = s.apply(CentralEvent::Tick, start + DRAIN_WINDOW);
    assert_eq!(s, CentralLink::Draining { since: start + DRAIN_WINDOW });
    assert_eq!(e, vec![TearDown { emit_disconnected: false }]);

    let (s, e) = s.apply(CentralEvent::CleanupConfirmed, start + DRAIN_WINDOW);
    assert_eq!(s, CentralLink::Idle);
    assert!(e.is_empty());
}

#[test]
fn a_quarantined_peer_cannot_be_dialled() {
    assert!(!CentralLink::Draining { since: t0() }.may_dial());
    assert!(!CentralLink::RadioOff.may_dial());
    assert!(!CentralLink::Connected { session: 1 }.may_dial());
}

#[test]
fn central_late_events_are_ignored() {
    let start = t0();
    for state in [
        CentralLink::Idle,
        CentralLink::RadioOff,
        CentralLink::Connected { session: 1 },
    ] {
        let (next, effects) = state.apply(CentralEvent::DialSucceeded, start);
        assert_eq!(next, state, "a stale DialSucceeded must not move a settled link");
        assert!(effects.is_empty());
    }
}

/// The invariant, over every `(state, event)` pair: a `Disconnected`
/// event is emitted exactly when a connection the consumer knew about
/// stops existing, and such a connection never stops existing silently —
/// the one exception being `DisconnectConfirmed`, which reports a
/// teardown the caller asked for and already knows about.
#[test]
fn central_disconnect_is_emitted_exactly_when_a_known_link_ends() {
    let start = t0();
    let states = [
        CentralLink::Idle,
        CentralLink::Dialing { since: start, session: 1 },
        CentralLink::Connected { session: 1 },
        CentralLink::Disconnecting { since: start, session: 1 },
        CentralLink::Draining { since: start },
        CentralLink::RadioOff,
    ];
    let events = [
        CentralEvent::DialStarted { session: 2 },
        CentralEvent::DialSucceeded,
        CentralEvent::DialFailed,
        CentralEvent::DisconnectRequested,
        CentralEvent::LinkDropped,
        CentralEvent::DisconnectConfirmed,
        CentralEvent::CleanupStarted,
        CentralEvent::CleanupConfirmed,
        CentralEvent::RadioLost,
        CentralEvent::RadioBack,
        CentralEvent::Tick,
    ];
    // Far enough ahead that every deadline has expired.
    let now = start + DIAL_WINDOW + DISCONNECT_WINDOW + DRAIN_WINDOW;

    for state in &states {
        for event in &events {
            let (next, effects) = state.apply(*event, now);
            let emitted = effects.iter().any(|t| t.emit_disconnected);
            let known_link_ended = state.has_connection() && !next.has_connection();

            if emitted {
                assert!(
                    known_link_ended,
                    "emitted Disconnected without a known link ending: \
                     {state:?} + {event:?} -> {next:?}"
                );
            }
            if known_link_ended && !emitted {
                assert_eq!(
                    *event,
                    CentralEvent::DisconnectConfirmed,
                    "a known link ended with no Disconnected event: \
                     {state:?} + {event:?} -> {next:?}"
                );
            }
        }
    }
}

/// No `(state, event)` pair leaves a resource-holding state for a
/// resource-free one without a `TearDown` — except the two events that
/// report the platform has already resolved it.
#[test]
fn central_never_leaks_a_platform_resource() {
    let start = t0();
    let states = [
        CentralLink::Idle,
        CentralLink::Dialing { since: start, session: 1 },
        CentralLink::Connected { session: 1 },
        CentralLink::Disconnecting { since: start, session: 1 },
        CentralLink::Draining { since: start },
        CentralLink::RadioOff,
    ];
    let events = [
        CentralEvent::DialStarted { session: 2 },
        CentralEvent::DialSucceeded,
        CentralEvent::DialFailed,
        CentralEvent::DisconnectRequested,
        CentralEvent::LinkDropped,
        CentralEvent::DisconnectConfirmed,
        CentralEvent::CleanupStarted,
        CentralEvent::CleanupConfirmed,
        CentralEvent::RadioLost,
        CentralEvent::RadioBack,
        CentralEvent::Tick,
    ];
    let now = start + DIAL_WINDOW + DISCONNECT_WINDOW + DRAIN_WINDOW;

    for state in &states {
        for event in &events {
            let (next, effects) = state.apply(*event, now);
            let freed = state.holds_resource() && !next.holds_resource();
            let tore_down = !effects.is_empty();
            let platform_already_resolved = matches!(
                event,
                CentralEvent::DisconnectConfirmed | CentralEvent::CleanupConfirmed
            );
            if freed && !tore_down {
                assert!(
                    platform_already_resolved,
                    "left a resource-holding state with no teardown: \
                     {state:?} + {event:?} -> {next:?}"
                );
            }
        }
    }
}

// ---- PeripheralLink --------------------------------------------------

#[test]
fn a_central_connects_subscribes_and_leaves() {
    let start = t0();
    let (s, e) = PeripheralLink::new().apply(PeripheralEvent::CentralConnected { session: 3 }, start);
    assert_eq!(s, PeripheralLink::Accepted { session: 3 });
    assert!(e.is_empty());

    let (s, e) = s.apply(PeripheralEvent::CentralSubscribed, start);
    assert_eq!(s, PeripheralLink::Serving { session: 3 });
    assert!(e.is_empty());
    assert!(s.holds_slot());

    let (s, e) = s.apply(PeripheralEvent::CentralDropped, start);
    assert_eq!(s, PeripheralLink::Absent);
    assert_eq!(e, vec![TearDown { emit_disconnected: true }]);
    assert!(!s.holds_slot());
}

#[test]
fn a_reconnect_supersedes_the_old_session() {
    let (s, e) = PeripheralLink::Serving { session: 3 }
        .apply(PeripheralEvent::CentralConnected { session: 4 }, t0());
    assert_eq!(s, PeripheralLink::Accepted { session: 4 });
    assert!(e.is_empty(), "the map now holds session 4; session 3's notify is refused by mismatch");
}

#[test]
fn peripheral_disconnect_request_is_silent_on_confirm() {
    let start = t0();
    let (s, e) = PeripheralLink::Serving { session: 1 }
        .apply(PeripheralEvent::DisconnectRequested, start);
    assert_eq!(s, PeripheralLink::Disconnecting { since: start, session: 1 });
    assert!(e.is_empty());
    let (s, e) = s.apply(PeripheralEvent::DisconnectConfirmed, start);
    assert_eq!(s, PeripheralLink::Absent);
    assert!(e.is_empty());
}

#[test]
fn radio_loss_drops_a_serving_central() {
    let (s, e) = PeripheralLink::Serving { session: 1 }.apply(PeripheralEvent::RadioLost, t0());
    assert_eq!(s, PeripheralLink::RadioOff);
    assert_eq!(e, vec![TearDown { emit_disconnected: true }]);
}

#[test]
fn peripheral_slot_is_freed_exactly_when_told_or_torn_down() {
    let start = t0();
    let states = [
        PeripheralLink::Absent,
        PeripheralLink::Accepted { session: 1 },
        PeripheralLink::Serving { session: 1 },
        PeripheralLink::Disconnecting { since: start, session: 1 },
        PeripheralLink::RadioOff,
    ];
    let events = [
        PeripheralEvent::CentralConnected { session: 2 },
        PeripheralEvent::CentralSubscribed,
        PeripheralEvent::CentralUnsubscribed,
        PeripheralEvent::CentralDropped,
        PeripheralEvent::DisconnectRequested,
        PeripheralEvent::DisconnectConfirmed,
        PeripheralEvent::RadioLost,
        PeripheralEvent::RadioBack,
        PeripheralEvent::Tick,
    ];
    let now = start + DISCONNECT_WINDOW * 2;

    for state in &states {
        for event in &events {
            let (next, effects) = state.apply(*event, now);
            let emitted = effects.iter().any(|t| t.emit_disconnected);
            let slot_freed = state.holds_slot() && !next.holds_slot();

            if emitted {
                assert!(
                    slot_freed,
                    "emitted Disconnected without freeing a slot: {state:?} + {event:?} -> {next:?}"
                );
            }
            if slot_freed && !emitted {
                assert_eq!(
                    *event,
                    PeripheralEvent::DisconnectConfirmed,
                    "a slot was freed with no Disconnected event: {state:?} + {event:?} -> {next:?}"
                );
            }
        }
    }
}

#[test]
fn peripheral_late_events_are_ignored() {
    let (next, effects) =
        PeripheralLink::Absent.apply(PeripheralEvent::CentralDropped, t0());
    assert_eq!(next, PeripheralLink::Absent);
    assert!(effects.is_empty());
}
