//! Boot-log capture: open every log channel and drain it before the power
//! rail comes on, then poll the open channels in a fixed order for a bounded
//! listening window, and power off at the end.
use crate::rails::DeviceSide;
use vstd::prelude::*;

verus! {

/// Hold after the cold-boot power-off, in milliseconds.
pub const COOLDOWN_MS: u64 = 2000;

/// Pause between two polling rounds, in milliseconds.
pub const POLL_PAUSE_MS: u64 = 5;

/// Listening window used when no other is given, in milliseconds.
pub const DEFAULT_LISTEN_MS: u64 = 15000;

/// Baud rate of the log channels.
pub const LOG_BAUD: u32 = 9600;

/// Read timeout of a log channel, in milliseconds.
pub const LOG_READ_TIMEOUT_MS: u64 = 10;

/// Bound on the reads that drain a freshly opened channel.
pub const DRAIN_PASSES: u32 = 8;

/// Where a capture session stands.
#[derive(Debug, Clone, Copy, PartialEq, Eq, Structural)]
pub enum CapturePhase {
    /// Rails forced off for a true cold boot.
    Cooldown,
    /// Opening the log channels, one at a time.
    Opening,
    /// Draining stale bytes from each open channel.
    Draining,
    /// Every channel is open or skipped; the power write is next.
    PoweringOn,
    /// Polling the open channels.
    Listening,
    /// Cleanup: every rail goes off.
    PoweringOff,
    /// The session is over.
    Finished,
}

/// Position of a phase in the fixed order of a session.
pub open spec fn rank(p: CapturePhase) -> int {
    match p {
        CapturePhase::Cooldown => 0,
        CapturePhase::Opening => 1,
        CapturePhase::Draining => 2,
        CapturePhase::PoweringOn => 3,
        CapturePhase::Listening => 4,
        CapturePhase::PoweringOff => 5,
        CapturePhase::Finished => 6,
    }
}

/// What the session asks the caller to do next.
#[derive(Debug, Clone, Copy, PartialEq, Eq, Structural)]
pub enum CaptureAction {
    /// Turn every rail off and hold for `cooldown_ms`.
    ColdOff { cooldown_ms: u64 },
    /// Open log channel `i`.
    Open(usize),
    /// Drain stale bytes from log channel `i`.
    Drain(usize),
    /// Power the device(s) on, and their charger if asked.
    PowerOn { side: DeviceSide, charger: bool },
    /// Read what log channel `i` has, without blocking for long.
    Read(usize),
    /// Sleep `ms`, then report the time since power-on.
    Pause(u64),
    /// Turn every rail off.
    PowerOff,
    /// Nothing is left to do.
    Done,
}

/// What happened when the caller carried out the last action.
#[derive(Debug, Clone, PartialEq, Eq)]
pub enum CaptureEvent {
    /// The action was carried out.
    Done,
    /// The channel opened.
    Opened,
    /// The channel did not open, with the reason.
    OpenFailed(String),
    /// Bytes were read.
    Data(Vec<u8>),
    /// The action failed (a write, or a read).
    Failed,
    /// Milliseconds since the power-on write.
    Elapsed(u64),
}

/// Outcome of the open attempt of one channel.
#[derive(Debug, Clone, PartialEq, Eq)]
pub enum ChannelStatus {
    /// Not tried yet.
    Pending,
    /// Open and polled.
    Open,
    /// Could not be opened; left out of the session.
    Skipped(String),
}

/// Number of open channels in `s`.
pub open spec fn count_open(s: Seq<ChannelStatus>) -> nat
    decreases s.len(),
{
    if s.len() == 0 {
        0
    } else {
        count_open(s.drop_last()) + if s.last() is Open {
            1nat
        } else {
            0nat
        }
    }
}

/// Number of skipped channels in `s`.
pub open spec fn count_skipped(s: Seq<ChannelStatus>) -> nat
    decreases s.len(),
{
    if s.len() == 0 {
        0
    } else {
        count_skipped(s.drop_last()) + if s.last() is Skipped {
            1nat
        } else {
            0nat
        }
    }
}

/// Total length of the logs in `s`.
pub open spec fn sum_lens(s: Seq<Vec<u8>>) -> nat
    decreases s.len(),
{
    if s.len() == 0 {
        0
    } else {
        sum_lens(s.drop_last()) + s.last()@.len()
    }
}

/// Sum of the counts in `s`.
pub open spec fn sum_counts(s: Seq<u64>) -> nat
    decreases s.len(),
{
    if s.len() == 0 {
        0
    } else {
        sum_counts(s.drop_last()) + s.last() as nat
    }
}

/// The first open channel at or after `from`, or the number of channels when
/// there is none.
pub open spec fn next_open(s: Seq<ChannelStatus>, from: int) -> int
    decreases s.len() - from,
{
    if from < 0 || from >= s.len() {
        s.len() as int
    } else if s[from] is Open {
        from
    } else {
        next_open(s, from + 1)
    }
}

proof fn lemma_next_open(s: Seq<ChannelStatus>, from: int)
    requires
        0 <= from <= s.len(),
    ensures
        from <= next_open(s, from) <= s.len(),
        next_open(s, from) < s.len() ==> s[next_open(s, from)] is Open,
    decreases s.len() - from,
{
    if from < s.len() && !(s[from] is Open) {
        lemma_next_open(s, from + 1);
    }
}

proof fn lemma_sum_lens_update(s: Seq<Vec<u8>>, i: int, v: Vec<u8>)
    requires
        0 <= i < s.len(),
    ensures
        sum_lens(s.update(i, v)) + s[i]@.len() == sum_lens(s) + v@.len(),
    decreases s.len(),
{
    let t = s.update(i, v);
    if i < s.len() - 1 {
        lemma_sum_lens_update(s.drop_last(), i, v);
        assert(t.drop_last() =~= s.drop_last().update(i, v));
    } else {
        assert(t.drop_last() =~= s.drop_last());
    }
}

proof fn lemma_counts_cover(s: Seq<ChannelStatus>)
    requires
        forall|i: int| 0 <= i < s.len() ==> !(#[trigger] s[i] is Pending),
    ensures
        count_open(s) + count_skipped(s) == s.len(),
    decreases s.len(),
{
    if s.len() > 0 {
        assert forall|i: int| 0 <= i < s.drop_last().len() implies !(
        #[trigger] s.drop_last()[i] is Pending) by {
            assert(s.drop_last()[i] == s[i]);
        }
        lemma_counts_cover(s.drop_last());
        assert(!(s[s.len() - 1] is Pending));
    }
}

proof fn lemma_sum_lens_prefix(s: Seq<Vec<u8>>, i: int)
    requires
        0 <= i < s.len(),
    ensures
        sum_lens(s.take(i)) + s[i]@.len() == sum_lens(s.take(i + 1)),
        sum_lens(s.take(i + 1)) <= sum_lens(s),
    decreases s.len(),
{
    assert(s.take(i + 1).drop_last() =~= s.take(i));
    if i + 1 < s.len() {
        lemma_sum_lens_prefix(s.drop_last(), i);
        assert(s.drop_last().take(i) =~= s.take(i));
        assert(s.drop_last().take(i + 1) =~= s.take(i + 1));
    } else {
        assert(s.take(i + 1) =~= s);
    }
}

/// How many of `len` received bytes are kept when `total` bytes are already
/// counted: all of them, unless that would overflow the counter.
pub open spec fn kept(len: nat, total: u64) -> nat {
    if len <= u64::MAX - total {
        len
    } else {
        (u64::MAX - total) as nat
    }
}

/// Totals of a capture session.
#[derive(Debug, Clone, PartialEq, Eq)]
pub struct CaptureSummary {
    /// Channels that opened.
    pub opened: usize,
    /// Channels that could not be opened.
    pub skipped: usize,
    /// Bytes received on each channel, in channel order (zero for a skipped one).
    pub per_channel: Vec<u64>,
    /// Bytes received over all channels.
    pub total_bytes: u64,
}

/// One boot-capture session over a fixed list of log channels.
pub struct CaptureSession {
    labels: Vec<String>,
    status: Vec<ChannelStatus>,
    logs: Vec<Vec<u8>>,
    total: u64,
    phase: CapturePhase,
    cursor: usize,
    side: DeviceSide,
    charger: bool,
    listen_ms: u64,
    aborted: bool,
    trace: Ghost<Seq<CaptureAction>>,
}

impl CaptureSession {
    pub closed spec fn labels_spec(self) -> Seq<String> {
        self.labels@
    }

    pub closed spec fn status_spec(self) -> Seq<ChannelStatus> {
        self.status@
    }

    pub closed spec fn logs_spec(self) -> Seq<Vec<u8>> {
        self.logs@
    }

    pub closed spec fn total_spec(self) -> u64 {
        self.total
    }

    pub closed spec fn phase_spec(self) -> CapturePhase {
        self.phase
    }

    pub closed spec fn cursor_spec(self) -> usize {
        self.cursor
    }

    pub closed spec fn side_spec(self) -> DeviceSide {
        self.side
    }

    pub closed spec fn charger_spec(self) -> bool {
        self.charger
    }

    pub closed spec fn listen_ms_spec(self) -> u64 {
        self.listen_ms
    }

    pub closed spec fn aborted_spec(self) -> bool {
        self.aborted
    }

    /// Every action the session has asked for, in order.
    pub closed spec fn trace(self) -> Seq<CaptureAction> {
        self.trace@
    }

    pub open spec fn n(self) -> nat {
        self.labels_spec().len()
    }

    /// The action that the current phase and position ask for.
    pub open spec fn action_of(self) -> CaptureAction {
        match self.phase_spec() {
            CapturePhase::Cooldown => CaptureAction::ColdOff { cooldown_ms: COOLDOWN_MS },
            CapturePhase::Opening => CaptureAction::Open(self.cursor_spec()),
            CapturePhase::Draining => CaptureAction::Drain(self.cursor_spec()),
            CapturePhase::PoweringOn => CaptureAction::PowerOn {
                side: self.side_spec(),
                charger: self.charger_spec(),
            },
            CapturePhase::Listening => if self.cursor_spec() < self.n() {
                CaptureAction::Read(self.cursor_spec())
            } else {
                CaptureAction::Pause(POLL_PAUSE_MS)
            },
            CapturePhase::PoweringOff => CaptureAction::PowerOff,
            CapturePhase::Finished => CaptureAction::Done,
        }
    }

    /// After the channel before `from` was opened or drained: drain the next
    /// open channel, or, when none is left, power on.
    pub open spec fn drains_from(self, from: int) -> bool {
        let j = next_open(self.status_spec(), from);
        if j < self.n() {
            self.phase_spec() is Draining && self.cursor_spec() == j
        } else {
            self.phase_spec() is PoweringOn
        }
    }

    /// Polling continues with the first open channel at or after `from`, or
    /// pauses when none is left in this round.
    pub open spec fn polls_from(self, from: int) -> bool {
        self.phase_spec() is Listening && self.cursor_spec() == next_open(self.status_spec(), from)
    }

    pub closed spec fn wf(self) -> bool {
        let n = self.labels@.len();
        let s = self.status@;
        let t = self.trace@;
        &&& s.len() == n
        &&& self.logs@.len() == n
        &&& self.total == sum_lens(self.logs@)
        &&& self.cursor <= n
        &&& rank(self.phase) <= 3 ==> !self.aborted
        &&& self.phase is Cooldown ==> forall|i: int| 0 <= i < n ==> #[trigger] s[i] is Pending
        &&& self.phase is Opening ==> self.cursor < n && forall|i: int|
            0 <= i < n ==> ((#[trigger] s[i] is Pending) <==> i >= self.cursor)
        &&& rank(self.phase) >= 2 ==> forall|i: int| 0 <= i < n ==> !(#[trigger] s[i] is Pending)
        &&& forall|i: int| 0 <= i < n && !(#[trigger] s[i] is Open) ==> self.logs@[i]@.len() == 0
        &&& self.phase is Draining ==> self.cursor < n && s[self.cursor as int] is Open
        &&& self.phase is Listening && self.cursor < n ==> s[self.cursor as int] is Open
        &&& t.len() > 0
        &&& t.last() == self.action_of()
        &&& forall|a: int| 0 <= a < t.len() && (#[trigger] t[a]) is PowerOn ==> rank(self.phase) >= 3
        &&& forall|a: int, b: int|
            0 <= a < b < t.len() && (#[trigger] t[a]) is PowerOn ==> !((#[trigger] t[b]) is Open)
        &&& forall|i: int|
            0 <= i < n && !(#[trigger] s[i] is Pending) ==> exists|b: int|
                0 <= b < t.len() && #[trigger] t[b] == CaptureAction::Open(i as usize)
    }

    proof fn lemma_trace_push(self, old_s: CaptureSession)
        requires
            old_s.wf(),
            rank(self.phase) >= rank(old_s.phase),
            self.trace@ == old_s.trace@.push(self.action_of()),
            self.action_of() is Open ==> rank(self.phase) <= 1,
            self.action_of() is PowerOn ==> rank(self.phase) >= 3,
        ensures
            forall|a: int|
                0 <= a < self.trace@.len() && (#[trigger] self.trace@[a]) is PowerOn ==> rank(
                    self.phase,
                ) >= 3,
            forall|a: int, b: int|
                0 <= a < b < self.trace@.len() && (#[trigger] self.trace@[a]) is PowerOn ==> !((
                #[trigger] self.trace@[b]) is Open),
    {
        let t = self.trace@;
        let ot = old_s.trace@;
        assert forall|a: int| 0 <= a < t.len() && (#[trigger] t[a]) is PowerOn implies rank(
            self.phase,
        ) >= 3 by {
            if a < ot.len() {
                assert(ot[a] == t[a]);
            }
        }
        assert forall|a: int, b: int|
            0 <= a < b < t.len() && (#[trigger] t[a]) is PowerOn implies !((#[trigger] t[b]) is Open) by {
            assert(ot[a] == t[a]);
            if b < ot.len() {
                assert(ot[b] == t[b]);
            } else {
                assert(rank(old_s.phase) >= 3);
            }
        }
    }

    /// A session over the channels named by `labels`: power goes to `side`
    /// (and its charger when `charger`), the listening window is `listen_ms`,
    /// and with `cold_boot` every rail is forced off first.
    pub fn new(labels: Vec<String>, side: DeviceSide, charger: bool, cold_boot: bool, listen_ms: u64) -> (r: CaptureSession)
        ensures
            r.wf(),
            r.labels_spec() == labels@,
            r.listen_ms_spec() == listen_ms,
            r.side_spec() == side,
            r.charger_spec() == charger,
            r.total_spec() == 0,
            !r.aborted_spec(),
            forall|i: int| 0 <= i < labels@.len() ==> (#[trigger] r.status_spec()[i]) is Pending,
            forall|i: int| 0 <= i < labels@.len() ==> (#[trigger] r.logs_spec()[i])@.len() == 0,
            r.trace() == seq![r.action_of()],
            cold_boot ==> r.action_of() == (CaptureAction::ColdOff { cooldown_ms: COOLDOWN_MS }),
            !cold_boot && labels@.len() > 0 ==> r.action_of() == CaptureAction::Open(0),
            !cold_boot && labels@.len() == 0 ==> r.action_of() == (CaptureAction::PowerOn {
                side,
                charger,
            }),
    {
        let n = labels.len();
        let mut status: Vec<ChannelStatus> = Vec::new();
        let mut logs: Vec<Vec<u8>> = Vec::new();
        let mut i: usize = 0;
        while i < n
            invariant
                n == labels@.len(),
                i <= n,
                status@.len() == i,
                logs@.len() == i,
                sum_lens(logs@) == 0,
                forall|j: int| 0 <= j < i ==> (#[trigger] status@[j]) is Pending,
                forall|j: int| 0 <= j < i ==> (#[trigger] logs@[j])@.len() == 0,
            decreases n - i,
        {
            status.push(ChannelStatus::Pending);
            let ghost before = logs@;
            logs.push(Vec::new());
            assert(logs@.drop_last() =~= before);
            i = i + 1;
        }
        let phase = if cold_boot {
            CapturePhase::Cooldown
        } else if n > 0 {
            CapturePhase::Opening
        } else {
            CapturePhase::PoweringOn
        };
        let ghost first = if cold_boot {
            CaptureAction::ColdOff { cooldown_ms: COOLDOWN_MS }
        } else if n > 0 {
            CaptureAction::Open(0)
        } else {
            CaptureAction::PowerOn { side, charger }
        };
        let ghost tr = seq![first];
        CaptureSession {
            labels,
            status,
            logs,
            total: 0,
            phase,
            cursor: 0,
            side,
            charger,
            listen_ms,
            aborted: false,
            trace: Ghost(tr),
        }
    }

    /// The first open channel at or after `from`, or the number of channels.
    fn next_open_from(&self, from: usize) -> (r: usize)
        requires
            from <= self.status@.len(),
        ensures
            r == next_open(self.status@, from as int),
            from <= r <= self.status@.len(),
            r < self.status@.len() ==> self.status@[r as int] is Open,
    {
        proof {
            lemma_next_open(self.status@, from as int);
        }
        let mut i = from;
        while i < self.status.len()
            invariant
                from <= i <= self.status@.len(),
                next_open(self.status@, i as int) == next_open(self.status@, from as int),
            decreases self.status@.len() - i,
        {
            if matches!(self.status[i], ChannelStatus::Open) {
                return i;
            }
            i = i + 1;
        }
        i
    }

    /// The action to carry out now.
    pub fn next_action(&self) -> (r: CaptureAction)
        ensures
            r == self.action_of(),
    {
        match self.phase {
            CapturePhase::Cooldown => CaptureAction::ColdOff { cooldown_ms: COOLDOWN_MS },
            CapturePhase::Opening => CaptureAction::Open(self.cursor),
            CapturePhase::Draining => CaptureAction::Drain(self.cursor),
            CapturePhase::PoweringOn => CaptureAction::PowerOn { side: self.side, charger: self.charger },
            CapturePhase::Listening => if self.cursor < self.labels.len() {
                CaptureAction::Read(self.cursor)
            } else {
                CaptureAction::Pause(POLL_PAUSE_MS)
            },
            CapturePhase::PoweringOff => CaptureAction::PowerOff,
            CapturePhase::Finished => CaptureAction::Done,
        }
    }

    /// The status of a channel after the open attempt `ev`.
    fn open_outcome(ev: CaptureEvent) -> (r: ChannelStatus)
        ensures
            ev is Opened ==> r is Open,
            !(ev is Opened) ==> r is Skipped,
            ev is OpenFailed ==> r == ChannelStatus::Skipped(ev->OpenFailed_0),
    {
        match ev {
            CaptureEvent::Opened => ChannelStatus::Open,
            CaptureEvent::OpenFailed(m) => ChannelStatus::Skipped(m),
            _ => ChannelStatus::Skipped(String::new()),
        }
    }

    /// Takes the outcome of the last action and says what to do next.
    pub fn on_event(&mut self, ev: CaptureEvent) -> (r: CaptureAction)
        requires
            old(self).wf(),
        ensures
            final(self).wf(),
            r == final(self).action_of(),
            final(self).trace() == old(self).trace().push(r),
            rank(final(self).phase_spec()) >= rank(old(self).phase_spec()),
            final(self).labels_spec() == old(self).labels_spec(),
            final(self).listen_ms_spec() == old(self).listen_ms_spec(),
            old(self).phase_spec() is Opening ==> {
                let c = old(self).cursor_spec() as int;
                &&& final(self).status_spec().len() == old(self).status_spec().len()
                &&& forall|j: int|
                    0 <= j < old(self).n() && j != c ==> #[trigger] final(self).status_spec()[j]
                        == old(self).status_spec()[j]
                &&& ev is Opened ==> final(self).status_spec()[c] is Open
                &&& !(ev is Opened) ==> final(self).status_spec()[c] is Skipped
                &&& ev is OpenFailed ==> final(self).status_spec()[c] == ChannelStatus::Skipped(
                    ev->OpenFailed_0,
                )
            },
            !(old(self).phase_spec() is Opening) ==> final(self).status_spec()
                == old(self).status_spec(),
            old(self).action_of() is Read && ev is Data ==> {
                let i = old(self).action_of()->Read_0 as int;
                let k = kept(ev->Data_0@.len(), old(self).total_spec());
                &&& final(self).logs_spec()[i]@ == old(self).logs_spec()[i]@ + ev->Data_0@.take(
                    k as int,
                )
                &&& final(self).total_spec() == old(self).total_spec() + k
                &&& forall|j: int|
                    0 <= j < old(self).n() && j != i ==> #[trigger] final(self).logs_spec()[j]
                        == old(self).logs_spec()[j]
            },
            !(old(self).action_of() is Read && ev is Data) ==> final(self).logs_spec()
                == old(self).logs_spec() && final(self).total_spec() == old(self).total_spec(),
            old(self).phase_spec() is PoweringOn ==> (final(self).aborted_spec() <==> ev is Failed),
            old(self).phase_spec() is PoweringOn && ev is Failed ==> final(self).phase_spec() is PoweringOff,
            old(self).phase_spec() is PoweringOn && !(ev is Failed) ==> final(self).phase_spec() is Listening,
            old(self).action_of() is Pause ==> (final(self).phase_spec() is PoweringOff <==> (
            ev is Elapsed && ev->Elapsed_0 >= old(self).listen_ms_spec())),
            old(self).action_of() is Pause ==> (final(self).phase_spec() is PoweringOff
                || final(self).phase_spec() is Listening),
            old(self).phase_spec() is PoweringOff ==> final(self).phase_spec() is Finished,
            old(self).phase_spec() is Finished ==> final(self).phase_spec() is Finished,
            old(self).phase_spec() is Cooldown ==> final(self).cursor_spec() == 0 && (
            if old(self).n() > 0 {
                final(self).phase_spec() is Opening
            } else {
                final(self).phase_spec() is PoweringOn
            }),
            old(self).phase_spec() is Opening && old(self).cursor_spec() + 1 < old(self).n() ==> (
            final(self).phase_spec() is Opening && final(self).cursor_spec() == old(
                self,
            ).cursor_spec() + 1),
            old(self).phase_spec() is Opening && old(self).cursor_spec() + 1 >= old(self).n()
                ==> final(self).drains_from(0),
            old(self).phase_spec() is Draining ==> final(self).drains_from(
                old(self).cursor_spec() + 1,
            ),
            old(self).phase_spec() is PoweringOn && !(ev is Failed) ==> final(self).polls_from(0),
            old(self).action_of() is Read ==> final(self).polls_from(
                old(self).action_of()->Read_0 + 1,
            ),
            old(self).action_of() is Pause && final(self).phase_spec() is Listening
                ==> final(self).polls_from(0),
    {
        let ghost pre = *self;
        let n = self.labels.len();
        match self.phase {
            CapturePhase::Cooldown => {
                if n > 0 {
                    self.phase = CapturePhase::Opening;
                } else {
                    self.phase = CapturePhase::PoweringOn;
                }
                self.cursor = 0;
            },
            CapturePhase::Opening => {
                let c = self.cursor;
                let st = Self::open_outcome(ev);
                self.status.set(c, st);
                if c + 1 < n {
                    self.cursor = c + 1;
                } else {
                    let k = self.next_open_from(0);
                    if k < n {
                        self.phase = CapturePhase::Draining;
                        self.cursor = k;
                    } else {
                        self.phase = CapturePhase::PoweringOn;
                        self.cursor = 0;
                    }
                }
            },
            CapturePhase::Draining => {
                let k = self.next_open_from(self.cursor + 1);
                if k < n {
                    self.cursor = k;
                } else {
                    self.phase = CapturePhase::PoweringOn;
                    self.cursor = 0;
                }
            },
            CapturePhase::PoweringOn => {
                if matches!(ev, CaptureEvent::Failed) {
                    self.aborted = true;
                    self.phase = CapturePhase::PoweringOff;
                    self.cursor = 0;
                } else {
                    self.phase = CapturePhase::Listening;
                    self.cursor = self.next_open_from(0);
                }
            },
            CapturePhase::Listening => {
                if self.cursor < n {
                    let i = self.cursor;
                    match ev {
                        CaptureEvent::Data(d) => self.append_log(i, d),
                        _ => {},
                    }
                    self.cursor = self.next_open_from(i + 1);
                } else {
                    let over = match ev {
                        CaptureEvent::Elapsed(ms) => ms >= self.listen_ms,
                        _ => false,
                    };
                    if over {
                        self.phase = CapturePhase::PoweringOff;
                        self.cursor = 0;
                    } else {
                        self.cursor = self.next_open_from(0);
                    }
                }
            },
            CapturePhase::PoweringOff => {
                self.phase = CapturePhase::Finished;
                self.cursor = 0;
            },
            CapturePhase::Finished => {},
        }
        let r = self.next_action();
        proof {
            self.trace = Ghost(self.trace@.push(r));
            self.lemma_trace_push(pre);
            let t = self.trace@;
            let pt = pre.trace@;
            assert forall|i: int|
                0 <= i < self.labels@.len() && !(#[trigger] self.status@[i] is Pending) implies exists|
                b: int,
            | 0 <= b < t.len() && #[trigger] t[b] == CaptureAction::Open(i as usize) by {
                if pre.status@[i] is Pending {
                    assert(t[pt.len() - 1] == CaptureAction::Open(i as usize));
                } else {
                    let b = choose|b: int|
                        0 <= b < pt.len() && #[trigger] pt[b] == CaptureAction::Open(i as usize);
                    assert(t[b] == pt[b]);
                }
            }
        }
        r
    }

    /// Appends what was read on channel `i` to its log, as much of it as the
    /// byte counter can still count.
    fn append_log(&mut self, i: usize, data: Vec<u8>)
        requires
            old(self).wf(),
            i < old(self).n(),
            old(self).status_spec()[i as int] is Open,
        ensures
            final(self).logs_spec()[i as int]@ == old(self).logs_spec()[i as int]@ + data@.take(
                kept(data@.len(), old(self).total_spec()) as int,
            ),
            final(self).total_spec() == old(self).total_spec() + kept(
                data@.len(),
                old(self).total_spec(),
            ),
            final(self).logs_spec().len() == old(self).logs_spec().len(),
            forall|j: int|
                0 <= j < old(self).n() && j != i ==> #[trigger] final(self).logs_spec()[j]
                    == old(self).logs_spec()[j],
            final(self).total_spec() == sum_lens(final(self).logs_spec()),
            final(self).labels == old(self).labels,
            final(self).status == old(self).status,
            final(self).phase == old(self).phase,
            final(self).cursor == old(self).cursor,
            final(self).side == old(self).side,
            final(self).charger == old(self).charger,
            final(self).listen_ms == old(self).listen_ms,
            final(self).aborted == old(self).aborted,
            final(self).trace == old(self).trace,
    {
        let mut d = data;
        let room = u64::MAX - self.total;
        if (d.len() as u64) > room {
            d.truncate(room as usize);
        }
        assert(d@ == data@.take(kept(data@.len(), self.total) as int));
        let ghost before = self.logs@;
        let add = d.len() as u64;
        self.logs[i].append(&mut d);
        proof {
            lemma_sum_lens_update(before, i as int, self.logs@[i as int]);
            assert(self.logs@ =~= before.update(i as int, self.logs@[i as int]));
        }
        self.total = self.total + add;
    }

    /// Number of log channels.
    pub fn len(&self) -> (r: usize)
        ensures
            r == self.n(),
    {
        self.labels.len()
    }

    /// Where the session stands.
    pub fn phase(&self) -> (r: CapturePhase)
        ensures
            r == self.phase_spec(),
    {
        self.phase
    }

    /// Whether the power-on write failed, cutting the session short.
    pub fn is_aborted(&self) -> (r: bool)
        ensures
            r == self.aborted_spec(),
    {
        self.aborted
    }

    /// The label of channel `i`.
    pub fn label(&self, i: usize) -> (r: &String)
        requires
            i < self.n(),
        ensures
            *r == self.labels_spec()[i as int],
    {
        &self.labels[i]
    }

    /// The open outcome of channel `i`.
    pub fn status(&self, i: usize) -> (r: &ChannelStatus)
        requires
            self.wf(),
            i < self.n(),
        ensures
            *r == self.status_spec()[i as int],
    {
        &self.status[i]
    }

    /// The bytes received on channel `i`.
    pub fn log(&self, i: usize) -> (r: &Vec<u8>)
        requires
            self.wf(),
            i < self.n(),
        ensures
            r@ == self.logs_spec()[i as int]@,
    {
        &self.logs[i]
    }

    /// Bytes received over all channels.
    pub fn total_bytes(&self) -> (r: u64)
        ensures
            r == self.total_spec(),
    {
        self.total
    }

    /// Whether no channel received anything (the wrong baud rate, the wrong
    /// pins, or too short a wait are the usual causes).
    pub fn no_data(&self) -> (r: bool)
        requires
            self.wf(),
        ensures
            r == (sum_lens(self.logs_spec()) == 0),
    {
        self.total == 0
    }

    /// Per-channel and overall totals.
    pub fn summary(&self) -> (r: CaptureSummary)
        requires
            self.wf(),
        ensures
            r.opened == count_open(self.status_spec()),
            r.skipped == count_skipped(self.status_spec()),
            r.per_channel@.len() == self.n(),
            forall|i: int|
                0 <= i < self.n() ==> #[trigger] r.per_channel@[i] == self.logs_spec()[i]@.len(),
            r.total_bytes == self.total_spec(),
            r.total_bytes == sum_counts(r.per_channel@),
            rank(self.phase_spec()) >= 2 ==> r.opened + r.skipped == self.n(),
    {
        let n = self.labels.len();
        let mut opened: usize = 0;
        let mut skipped: usize = 0;
        let mut per_channel: Vec<u64> = Vec::new();
        let mut i: usize = 0;
        while i < n
            invariant
                self.wf(),
                n == self.n(),
                i <= n,
                opened == count_open(self.status@.take(i as int)),
                skipped == count_skipped(self.status@.take(i as int)),
                opened + skipped <= i,
                per_channel@.len() == i,
                forall|j: int| 0 <= j < i ==> #[trigger] per_channel@[j] == self.logs@[j]@.len(),
                sum_counts(per_channel@) == sum_lens(self.logs@.take(i as int)),
            decreases n - i,
        {
            proof {
                lemma_sum_lens_prefix(self.logs@, i as int);
                assert(self.status@.take(i + 1).drop_last() =~= self.status@.take(i as int));
            }
            match self.status[i] {
                ChannelStatus::Open => opened = opened + 1,
                ChannelStatus::Skipped(_) => skipped = skipped + 1,
                ChannelStatus::Pending => {},
            }
            let ghost before = per_channel@;
            per_channel.push(self.logs[i].len() as u64);
            assert(per_channel@.drop_last() =~= before);
            i = i + 1;
        }
        proof {
            assert(self.status@.take(n as int) =~= self.status@);
            assert(self.logs@.take(n as int) =~= self.logs@);
            if rank(self.phase) >= 2 {
                lemma_counts_cover(self.status@);
            }
        }
        CaptureSummary { opened, skipped, per_channel, total_bytes: self.total }
    }
}

/// Once the open attempts are over, every requested channel counts either as
/// open or as skipped, a skipped channel has received nothing, and the byte
/// total is the sum of the per-channel logs.
pub proof fn law_capture_report_covers_channels(s: CaptureSession)
    requires
        s.wf(),
        rank(s.phase_spec()) >= 2,
    ensures
        count_open(s.status_spec()) + count_skipped(s.status_spec()) == s.n(),
        s.total_spec() == sum_lens(s.logs_spec()),
        forall|i: int|
            0 <= i < s.n() && (#[trigger] s.status_spec()[i]) is Skipped ==> s.logs_spec()[i]@.len()
                == 0,
{
    lemma_counts_cover(s.status_spec());
}

/// Channel `i` was asked to open at some point before position `a` of `t`.
pub open spec fn opened_before(t: Seq<CaptureAction>, i: int, a: int) -> bool {
    exists|b: int| 0 <= b < a && #[trigger] t[b] == CaptureAction::Open(i as usize)
}

/// The power-on write is asked for only after the open attempt of every
/// channel: each channel's `Open` action comes earlier in the session, and no
/// channel is opened after it.
pub proof fn law_power_on_after_every_open(s: CaptureSession)
    requires
        s.wf(),
    ensures
        forall|a: int, i: int|
            0 <= a < s.trace().len() && s.trace()[a] is PowerOn && 0 <= i < s.n()
                ==> #[trigger] opened_before(s.trace(), i, a),
        forall|a: int|
            0 <= a < s.trace().len() && (#[trigger] s.trace()[a]) is PowerOn ==> forall|i: int|
                0 <= i < s.n() ==> !(#[trigger] s.status_spec()[i] is Pending),
        forall|a: int, b: int|
            0 <= a < b < s.trace().len() && (#[trigger] s.trace()[a]) is PowerOn ==> !((
            #[trigger] s.trace()[b]) is Open),
{
    let t = s.trace();
    assert forall|a: int, i: int|
        0 <= a < t.len() && t[a] is PowerOn && 0 <= i < s.n() implies #[trigger] opened_before(
        t,
        i,
        a,
    ) by {
        assert(!(s.status_spec()[i] is Pending));
        let b = choose|b: int| 0 <= b < t.len() && #[trigger] t[b] == CaptureAction::Open(i as usize);
        if b >= a {
            assert(b != a);
            assert(!(t[b] is Open));
        }
        assert(0 <= b < a && t[b] == CaptureAction::Open(i as usize));
    }
}

} // verus!
