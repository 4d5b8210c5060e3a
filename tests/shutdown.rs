use prelude_power_controller::shutdown::{
    ShutdownAction, ShutdownEvent, ShutdownPhase, ShutdownVerifier, DEFAULT_ATTEMPTS,
    POWER_OFF_HOLD_MS, POWER_ON_HOLD_MS,
};

/// A simulated device: answers probes until it receives the shutdown command,
/// and afterwards answers only if `keeps_answering`.
fn run_device(max: u32, keeps_answering: bool) -> (ShutdownVerifier, u32) {
    let mut v = ShutdownVerifier::new(max);
    let mut shut = false;
    let mut probes = 0;
    let mut action = v.next_action();
    loop {
        let ev = match action {
            ShutdownAction::ProbeStatus => {
                probes += 1;
                ShutdownEvent::Probe(!shut || keeps_answering)
            }
            ShutdownAction::SendShutdown => {
                shut = true;
                ShutdownEvent::ShutdownSent(false)
            }
            ShutdownAction::CyclePower { .. } => ShutdownEvent::PowerCycled,
            ShutdownAction::Finish(_) => break,
        };
        action = v.on_event(ev);
    }
    (v, probes)
}

#[test]
fn silent_device_is_confirmed_off() {
    let (v, probes) = run_device(DEFAULT_ATTEMPTS, false);
    assert_eq!(v.phase, ShutdownPhase::ConfirmedOff);
    assert_eq!(v.attempts, 3);
    assert_eq!(probes, 1 + 3);
}

#[test]
fn answering_device_stops_at_first_answer() {
    let (v, probes) = run_device(DEFAULT_ATTEMPTS, true);
    assert_eq!(v.phase, ShutdownPhase::StillResponding);
    assert_eq!(v.attempts, 1);
    assert_eq!(probes, 2);
}

#[test]
fn answer_on_second_attempt() {
    let mut v = ShutdownVerifier::new(3);
    v.on_event(ShutdownEvent::Probe(true));
    v.on_event(ShutdownEvent::ShutdownSent(true));
    assert_eq!(v.on_event(ShutdownEvent::PowerCycled), ShutdownAction::ProbeStatus);
    assert_eq!(v.on_event(ShutdownEvent::Probe(false)), ShutdownAction::ProbeStatus);
    let a = v.on_event(ShutdownEvent::Probe(true));
    assert_eq!(a, ShutdownAction::Finish(ShutdownPhase::StillResponding));
    assert_eq!(v.attempts, 2);
    assert!(v.acknowledged);
    let after = v.on_event(ShutdownEvent::Probe(false));
    assert_eq!(after, ShutdownAction::Finish(ShutdownPhase::StillResponding));
    assert_eq!(v.attempts, 2);
}

#[test]
fn action_sequence_up_to_power_cycle() {
    let mut v = ShutdownVerifier::new(3);
    assert_eq!(v.next_action(), ShutdownAction::ProbeStatus);
    assert_eq!(v.on_event(ShutdownEvent::Probe(true)), ShutdownAction::SendShutdown);
    assert_eq!(
        v.on_event(ShutdownEvent::ShutdownNotSent),
        ShutdownAction::CyclePower { off_ms: POWER_OFF_HOLD_MS, on_ms: POWER_ON_HOLD_MS }
    );
    assert_eq!(POWER_OFF_HOLD_MS, 2000);
    assert_eq!(POWER_ON_HOLD_MS, 3000);
    assert!(!v.acknowledged);
}

#[test]
fn offline_device_before_shutdown_is_not_online() {
    let mut v = ShutdownVerifier::new(3);
    assert_eq!(
        v.on_event(ShutdownEvent::Probe(false)),
        ShutdownAction::Finish(ShutdownPhase::NotOnline)
    );
}

#[test]
fn failed_power_cycle_is_a_fault() {
    let mut v = ShutdownVerifier::new(3);
    v.on_event(ShutdownEvent::Probe(true));
    v.on_event(ShutdownEvent::ShutdownSent(false));
    assert_eq!(
        v.on_event(ShutdownEvent::PowerFailed),
        ShutdownAction::Finish(ShutdownPhase::PowerFault)
    );
}

#[test]
fn event_out_of_place_is_ignored() {
    let mut v = ShutdownVerifier::new(3);
    let before = v;
    assert_eq!(v.on_event(ShutdownEvent::PowerCycled), ShutdownAction::ProbeStatus);
    assert_eq!(v, before);
}

#[test]
fn zero_attempts_confirms_after_power_cycle() {
    let mut v = ShutdownVerifier::new(0);
    v.on_event(ShutdownEvent::Probe(true));
    v.on_event(ShutdownEvent::ShutdownSent(false));
    assert_eq!(
        v.on_event(ShutdownEvent::PowerCycled),
        ShutdownAction::Finish(ShutdownPhase::ConfirmedOff)
    );
    assert_eq!(v.attempts, 0);
}

#[test]
fn single_attempt_bound() {
    let (v, probes) = run_device(1, false);
    assert_eq!(v.phase, ShutdownPhase::ConfirmedOff);
    assert_eq!(v.attempts, 1);
    assert_eq!(probes, 2);
}
