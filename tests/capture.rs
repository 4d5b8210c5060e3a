use prelude_power_controller::capture::{
    CaptureAction, CaptureEvent, CapturePhase, CaptureSession, ChannelStatus, COOLDOWN_MS,
    DEFAULT_LISTEN_MS, POLL_PAUSE_MS,
};
use prelude_power_controller::rails::DeviceSide;

fn labels(names: &[&str]) -> Vec<String> {
    names.iter().map(|s| s.to_string()).collect()
}

/// Drives a session against simulated channels: `opens[i]` says whether
/// channel `i` opens, `replies[i]` is what it sends once per round, and the
/// clock advances `tick_ms` per round. Returns every action asked for.
fn drive(
    s: &mut CaptureSession,
    opens: &[bool],
    replies: &[&[u8]],
    tick_ms: u64,
) -> Vec<CaptureAction> {
    let mut actions = Vec::new();
    let mut elapsed = 0u64;
    let mut action = s.next_action();
    loop {
        actions.push(action);
        let ev = match action {
            CaptureAction::ColdOff { .. } => CaptureEvent::Done,
            CaptureAction::Open(i) => {
                if opens[i] {
                    CaptureEvent::Opened
                } else {
                    CaptureEvent::OpenFailed(format!("no such port {}", i))
                }
            }
            CaptureAction::Drain(_) => CaptureEvent::Done,
            CaptureAction::PowerOn { .. } => CaptureEvent::Done,
            CaptureAction::Read(i) => {
                if replies[i].is_empty() {
                    CaptureEvent::Done
                } else {
                    CaptureEvent::Data(replies[i].to_vec())
                }
            }
            CaptureAction::Pause(_) => {
                elapsed += tick_ms;
                CaptureEvent::Elapsed(elapsed)
            }
            CaptureAction::PowerOff => CaptureEvent::Done,
            CaptureAction::Done => break,
        };
        action = s.on_event(ev);
    }
    actions
}

#[test]
fn partial_open_reports_open_and_skipped() {
    let mut s = CaptureSession::new(labels(&["B", "C", "D"]), DeviceSide::Device1, false, false, 100);
    drive(&mut s, &[true, false, true], &[&b"boot"[..], &b""[..], &b"xy"[..]], 50);
    let sum = s.summary();
    assert_eq!(sum.opened, 2);
    assert_eq!(sum.skipped, 1);
    assert_eq!(sum.per_channel, vec![8, 0, 4]);
    assert_eq!(sum.total_bytes, 12);
    assert_eq!(sum.total_bytes, sum.per_channel.iter().sum::<u64>());
    assert_eq!(*s.status(1), ChannelStatus::Skipped("no such port 1".to_string()));
    assert_eq!(s.log(0), &b"bootboot".to_vec());
    assert_eq!(s.phase(), CapturePhase::Finished);
    assert!(!s.no_data());
}

#[test]
fn power_on_comes_after_every_open() {
    let mut s = CaptureSession::new(labels(&["B", "C", "D"]), DeviceSide::Both, true, false, 10);
    let actions = drive(&mut s, &[true, true, false], &[&b""[..], &b""[..], &b""[..]], 10);
    let power = actions
        .iter()
        .position(|a| matches!(a, CaptureAction::PowerOn { .. }))
        .unwrap();
    assert_eq!(
        actions[power],
        CaptureAction::PowerOn { side: DeviceSide::Both, charger: true }
    );
    for (k, a) in actions.iter().enumerate() {
        if matches!(a, CaptureAction::Open(_)) || matches!(a, CaptureAction::Drain(_)) {
            assert!(k < power);
        }
        if matches!(a, CaptureAction::Read(_)) {
            assert!(k > power);
        }
    }
    assert_eq!(&actions[..3], &[CaptureAction::Open(0), CaptureAction::Open(1), CaptureAction::Open(2)]);
    assert_eq!(&actions[3..5], &[CaptureAction::Drain(0), CaptureAction::Drain(1)]);
}

#[test]
fn cold_boot_starts_with_power_off() {
    let s = CaptureSession::new(labels(&["B"]), DeviceSide::Device1, false, true, DEFAULT_LISTEN_MS);
    assert_eq!(s.next_action(), CaptureAction::ColdOff { cooldown_ms: COOLDOWN_MS });
}

#[test]
fn no_channels_goes_straight_to_power_on() {
    let mut s = CaptureSession::new(Vec::new(), DeviceSide::Device2, false, false, 5);
    assert_eq!(
        s.next_action(),
        CaptureAction::PowerOn { side: DeviceSide::Device2, charger: false }
    );
    drive(&mut s, &[], &[], 5);
    let sum = s.summary();
    assert_eq!((sum.opened, sum.skipped, sum.total_bytes), (0, 0, 0));
    assert!(s.no_data());
}

#[test]
fn failed_power_on_aborts_to_power_off() {
    let mut s = CaptureSession::new(labels(&["B"]), DeviceSide::Device1, false, false, 100);
    assert_eq!(s.on_event(CaptureEvent::Opened), CaptureAction::Drain(0));
    assert_eq!(
        s.on_event(CaptureEvent::Done),
        CaptureAction::PowerOn { side: DeviceSide::Device1, charger: false }
    );
    assert_eq!(s.on_event(CaptureEvent::Failed), CaptureAction::PowerOff);
    assert!(s.is_aborted());
    assert_eq!(s.on_event(CaptureEvent::Done), CaptureAction::Done);
}

#[test]
fn read_failure_does_not_stop_other_channels() {
    let mut s = CaptureSession::new(labels(&["B", "C"]), DeviceSide::Device1, false, false, 100);
    s.on_event(CaptureEvent::Opened);
    s.on_event(CaptureEvent::Opened);
    s.on_event(CaptureEvent::Done);
    s.on_event(CaptureEvent::Done);
    assert_eq!(s.on_event(CaptureEvent::Done), CaptureAction::Read(0));
    assert_eq!(s.on_event(CaptureEvent::Failed), CaptureAction::Read(1));
    assert_eq!(s.on_event(CaptureEvent::Data(b"ok".to_vec())), CaptureAction::Pause(POLL_PAUSE_MS));
    assert_eq!(s.on_event(CaptureEvent::Elapsed(40)), CaptureAction::Read(0));
    assert_eq!(s.total_bytes(), 2);
    assert_eq!(s.log(1), &b"ok".to_vec());
}

#[test]
fn listening_lasts_the_whole_window() {
    let mut s = CaptureSession::new(labels(&["B"]), DeviceSide::Device1, false, false, 30);
    let actions = drive(&mut s, &[true], &[&b"a"[..]], 10);
    let pauses = actions.iter().filter(|a| matches!(a, CaptureAction::Pause(_))).count();
    assert_eq!(pauses, 3);
    assert_eq!(s.summary().per_channel, vec![3]);
    assert_eq!(actions[actions.len() - 2], CaptureAction::PowerOff);
}

#[test]
fn all_channels_skipped_still_powers_and_finishes() {
    let mut s = CaptureSession::new(labels(&["B", "C"]), DeviceSide::Device1, false, false, 10);
    let actions = drive(&mut s, &[false, false], &[&b""[..], &b""[..]], 10);
    assert!(!actions.iter().any(|a| matches!(a, CaptureAction::Drain(_) | CaptureAction::Read(_))));
    let sum = s.summary();
    assert_eq!((sum.opened, sum.skipped), (0, 2));
    assert!(s.no_data());
    assert_eq!(s.label(1), "C");
    assert_eq!(s.len(), 2);
}
