//! Shutdown verification: confirm the device is online, send the shutdown
//! command, cycle the power rail, then probe a bounded number of times to see
//! whether the device stays silent.
use vstd::prelude::*;

verus! {

/// How long the power rail stays off during the power cycle, in milliseconds.
pub const POWER_OFF_HOLD_MS: u64 = 2000;

/// How long to wait after power returns before probing, in milliseconds.
pub const POWER_ON_HOLD_MS: u64 = 3000;

/// Number of offline probes made when no other bound is given.
pub const DEFAULT_ATTEMPTS: u32 = 3;

/// Where a verification run stands.
#[derive(Debug, Clone, Copy, PartialEq, Eq, Structural)]
pub enum ShutdownPhase {
    /// Waiting for the first status probe, which must be answered.
    CheckingOnline,
    /// The device answered; the shutdown command is next.
    Online,
    /// The shutdown command went out; the power cycle is next.
    ShutdownSent,
    /// Power was cycled; probing for an answer.
    VerifyingOffline,
    /// Every probe after the power cycle went unanswered.
    ConfirmedOff,
    /// A probe after the power cycle was answered.
    StillResponding,
    /// The device did not answer before the shutdown command.
    NotOnline,
    /// The power cycle could not be carried out.
    PowerFault,
}

/// What the verifier asks the caller to do next.
#[derive(Debug, Clone, Copy, PartialEq, Eq, Structural)]
pub enum ShutdownAction {
    /// Open the channel, drain it, send the status probe, listen, and report
    /// whether anything came back.
    ProbeStatus,
    /// Open the channel, send the shutdown command, listen, and report whether
    /// an acknowledgment came back.
    SendShutdown,
    /// Turn the rail off, hold, turn it back on, hold.
    CyclePower { off_ms: u64, on_ms: u64 },
    /// The run is over with this phase: turn the rail off and report.
    Finish(ShutdownPhase),
}

/// What happened when the caller carried out the last action.
#[derive(Debug, Clone, Copy, PartialEq, Eq, Structural)]
pub enum ShutdownEvent {
    /// The status probe got an answer (`true`) or none (`false`).
    Probe(bool),
    /// The shutdown command went out; whether acknowledgment bytes came back.
    ShutdownSent(bool),
    /// The shutdown command could not be sent.
    ShutdownNotSent,
    /// The power cycle was carried out.
    PowerCycled,
    /// A power write of the cycle failed.
    PowerFailed,
}

/// A verification run.
#[derive(Debug, Clone, Copy, PartialEq, Eq, Structural)]
pub struct ShutdownVerifier {
    pub phase: ShutdownPhase,
    /// Probes made after the power cycle.
    pub attempts: u32,
    /// Bound on the probes after the power cycle.
    pub max_attempts: u32,
    /// Whether the shutdown command was acknowledged.
    pub acknowledged: bool,
}

/// A phase in which the run is over.
pub open spec fn is_terminal(p: ShutdownPhase) -> bool {
    p is ConfirmedOff || p is StillResponding || p is NotOnline || p is PowerFault
}

impl ShutdownVerifier {
    pub open spec fn initial(max_attempts: u32) -> ShutdownVerifier {
        ShutdownVerifier {
            phase: ShutdownPhase::CheckingOnline,
            attempts: 0,
            max_attempts,
            acknowledged: false,
        }
    }

    pub open spec fn wf(self) -> bool {
        &&& self.attempts <= self.max_attempts
        &&& self.phase is VerifyingOffline ==> self.attempts < self.max_attempts
    }

    /// The run after `ev`; an event that does not fit the phase changes nothing.
    pub open spec fn after(self, ev: ShutdownEvent) -> ShutdownVerifier {
        match self.phase {
            ShutdownPhase::CheckingOnline => match ev {
                ShutdownEvent::Probe(true) => ShutdownVerifier { phase: ShutdownPhase::Online, ..self },
                ShutdownEvent::Probe(false) => ShutdownVerifier {
                    phase: ShutdownPhase::NotOnline,
                    ..self
                },
                _ => self,
            },
            ShutdownPhase::Online => match ev {
                ShutdownEvent::ShutdownSent(ack) => ShutdownVerifier {
                    phase: ShutdownPhase::ShutdownSent,
                    acknowledged: ack,
                    ..self
                },
                ShutdownEvent::ShutdownNotSent => ShutdownVerifier {
                    phase: ShutdownPhase::ShutdownSent,
                    acknowledged: false,
                    ..self
                },
                _ => self,
            },
            ShutdownPhase::ShutdownSent => match ev {
                ShutdownEvent::PowerCycled => if self.max_attempts == 0 {
                    ShutdownVerifier { phase: ShutdownPhase::ConfirmedOff, ..self }
                } else {
                    ShutdownVerifier { phase: ShutdownPhase::VerifyingOffline, attempts: 0, ..self }
                },
                ShutdownEvent::PowerFailed => ShutdownVerifier {
                    phase: ShutdownPhase::PowerFault,
                    ..self
                },
                _ => self,
            },
            ShutdownPhase::VerifyingOffline => match ev {
                ShutdownEvent::Probe(true) => ShutdownVerifier {
                    phase: ShutdownPhase::StillResponding,
                    attempts: (self.attempts + 1) as u32,
                    ..self
                },
                ShutdownEvent::Probe(false) => if self.attempts + 1 >= self.max_attempts {
                    ShutdownVerifier {
                        phase: ShutdownPhase::ConfirmedOff,
                        attempts: (self.attempts + 1) as u32,
                        ..self
                    }
                } else {
                    ShutdownVerifier {
                        phase: ShutdownPhase::VerifyingOffline,
                        attempts: (self.attempts + 1) as u32,
                        ..self
                    }
                },
                _ => self,
            },
            _ => self,
        }
    }

    /// The action that the phase asks for.
    pub open spec fn action_of(self) -> ShutdownAction {
        match self.phase {
            ShutdownPhase::CheckingOnline => ShutdownAction::ProbeStatus,
            ShutdownPhase::Online => ShutdownAction::SendShutdown,
            ShutdownPhase::ShutdownSent => ShutdownAction::CyclePower {
                off_ms: POWER_OFF_HOLD_MS,
                on_ms: POWER_ON_HOLD_MS,
            },
            ShutdownPhase::VerifyingOffline => ShutdownAction::ProbeStatus,
            _ => ShutdownAction::Finish(self.phase),
        }
    }

    /// A run that makes at most `max_attempts` probes after the power cycle.
    pub fn new(max_attempts: u32) -> (r: ShutdownVerifier)
        ensures
            r == ShutdownVerifier::initial(max_attempts),
            r.wf(),
    {
        ShutdownVerifier {
            phase: ShutdownPhase::CheckingOnline,
            attempts: 0,
            max_attempts,
            acknowledged: false,
        }
    }

    /// What to do next.
    pub fn next_action(&self) -> (r: ShutdownAction)
        ensures
            r == self.action_of(),
    {
        match self.phase {
            ShutdownPhase::CheckingOnline => ShutdownAction::ProbeStatus,
            ShutdownPhase::Online => ShutdownAction::SendShutdown,
            ShutdownPhase::ShutdownSent => ShutdownAction::CyclePower {
                off_ms: POWER_OFF_HOLD_MS,
                on_ms: POWER_ON_HOLD_MS,
            },
            ShutdownPhase::VerifyingOffline => ShutdownAction::ProbeStatus,
            _ => ShutdownAction::Finish(self.phase),
        }
    }

    /// Takes the outcome of the last action and says what to do next.
    pub fn on_event(&mut self, ev: ShutdownEvent) -> (r: ShutdownAction)
        requires
            old(self).wf(),
        ensures
            *final(self) == old(self).after(ev),
            final(self).wf(),
            r == final(self).action_of(),
    {
        match self.phase {
            ShutdownPhase::CheckingOnline => match ev {
                ShutdownEvent::Probe(true) => self.phase = ShutdownPhase::Online,
                ShutdownEvent::Probe(false) => self.phase = ShutdownPhase::NotOnline,
                _ => {},
            },
            ShutdownPhase::Online => match ev {
                ShutdownEvent::ShutdownSent(ack) => {
                    self.phase = ShutdownPhase::ShutdownSent;
                    self.acknowledged = ack;
                },
                ShutdownEvent::ShutdownNotSent => {
                    self.phase = ShutdownPhase::ShutdownSent;
                    self.acknowledged = false;
                },
                _ => {},
            },
            ShutdownPhase::ShutdownSent => match ev {
                ShutdownEvent::PowerCycled => {
                    if self.max_attempts == 0 {
                        self.phase = ShutdownPhase::ConfirmedOff;
                    } else {
                        self.phase = ShutdownPhase::VerifyingOffline;
                        self.attempts = 0;
                    }
                },
                ShutdownEvent::PowerFailed => self.phase = ShutdownPhase::PowerFault,
                _ => {},
            },
            ShutdownPhase::VerifyingOffline => match ev {
                ShutdownEvent::Probe(true) => {
                    self.phase = ShutdownPhase::StillResponding;
                    self.attempts = self.attempts + 1;
                },
                ShutdownEvent::Probe(false) => {
                    self.attempts = self.attempts + 1;
                    if self.attempts >= self.max_attempts {
                        self.phase = ShutdownPhase::ConfirmedOff;
                    }
                },
                _ => {},
            },
            _ => {},
        }
        self.next_action()
    }
}

/// The run after the events `evs`, in order.
pub open spec fn run(v: ShutdownVerifier, evs: Seq<ShutdownEvent>) -> ShutdownVerifier
    decreases evs.len(),
{
    if evs.len() == 0 {
        v
    } else {
        run(v, evs.drop_last()).after(evs.last())
    }
}

/// The events up to the power cycle for a device that answers the first probe.
pub open spec fn online_then_cycled(ack: bool) -> Seq<ShutdownEvent> {
    seq![ShutdownEvent::Probe(true), ShutdownEvent::ShutdownSent(ack), ShutdownEvent::PowerCycled]
}

/// `k` unanswered probes.
pub open spec fn silent_probes(k: nat) -> Seq<ShutdownEvent> {
    Seq::new(k, |i: int| ShutdownEvent::Probe(false))
}

proof fn lemma_silent_prefix(max: u32, ack: bool, k: nat)
    requires
        1 <= max,
        k < max,
    ensures
        run(ShutdownVerifier::initial(max), online_then_cycled(ack) + silent_probes(k))
            == (ShutdownVerifier {
            phase: ShutdownPhase::VerifyingOffline,
            attempts: k as u32,
            max_attempts: max,
            acknowledged: ack,
        }),
    decreases k,
{
    let init = ShutdownVerifier::initial(max);
    let p = online_then_cycled(ack);
    if k == 0 {
        let e0 = Seq::<ShutdownEvent>::empty();
        let e1 = seq![ShutdownEvent::Probe(true)];
        let e2 = seq![ShutdownEvent::Probe(true), ShutdownEvent::ShutdownSent(ack)];
        assert(p + silent_probes(0) =~= p);
        assert(e1.drop_last() =~= e0);
        assert(e2.drop_last() =~= e1);
        assert(p.drop_last() =~= e2);
        assert(run(init, e0) == init);
        assert(run(init, e1) == init.after(ShutdownEvent::Probe(true)));
        assert(run(init, e2) == run(init, e1).after(ShutdownEvent::ShutdownSent(ack)));
        assert(run(init, p) == run(init, e2).after(ShutdownEvent::PowerCycled));
    } else {
        let q = p + silent_probes(k);
        lemma_silent_prefix(max, ack, (k - 1) as nat);
        assert(q.drop_last() =~= p + silent_probes((k - 1) as nat));
        assert(q.last() == ShutdownEvent::Probe(false));
    }
}

/// A device that answers the first probe and none after the shutdown is
/// confirmed off after exactly the bounded number of probes.
pub proof fn law_silent_device_confirmed_off(max: u32, ack: bool)
    requires
        1 <= max,
    ensures
        run(ShutdownVerifier::initial(max), online_then_cycled(ack) + silent_probes(max as nat)).phase
            == ShutdownPhase::ConfirmedOff,
        run(
            ShutdownVerifier::initial(max),
            online_then_cycled(ack) + silent_probes(max as nat),
        ).attempts == max,
{
    let p = online_then_cycled(ack);
    lemma_silent_prefix(max, ack, (max - 1) as nat);
    assert((p + silent_probes(max as nat)).drop_last() =~= p + silent_probes((max - 1) as nat));
}

/// A device that answers a probe after the shutdown is reported still
/// responding at that probe: after `k` unanswered probes and one answered, the
/// run is over with `k + 1` attempts, however large the bound.
pub proof fn law_answering_device_still_responding(max: u32, ack: bool, k: nat)
    requires
        k < max,
    ensures
        run(
            ShutdownVerifier::initial(max),
            online_then_cycled(ack) + silent_probes(k).push(ShutdownEvent::Probe(true)),
        ).phase == ShutdownPhase::StillResponding,
        run(
            ShutdownVerifier::initial(max),
            online_then_cycled(ack) + silent_probes(k).push(ShutdownEvent::Probe(true)),
        ).attempts == k + 1,
{
    let p = online_then_cycled(ack);
    lemma_silent_prefix(max, ack, k);
    assert((p + silent_probes(k).push(ShutdownEvent::Probe(true))).drop_last() =~= p
        + silent_probes(k));
}

/// Once the run is over, no event changes it.
pub proof fn law_terminal_phases_absorb(v: ShutdownVerifier, ev: ShutdownEvent)
    requires
        is_terminal(v.phase),
    ensures
        v.after(ev) == v,
{
}

/// Every step keeps the bound on the probes: no run makes more than
/// `max_attempts` probes after the power cycle.
pub proof fn law_attempts_bounded(v: ShutdownVerifier, evs: Seq<ShutdownEvent>)
    requires
        v.wf(),
    ensures
        run(v, evs).wf(),
        run(v, evs).attempts <= v.max_attempts,
        run(v, evs).max_attempts == v.max_attempts,
    decreases evs.len(),
{
    if evs.len() > 0 {
        law_attempts_bounded(v, evs.drop_last());
    }
}

} // verus!
