//! Baud-rate discovery: which candidate rate gives a response that reads as
//! text, tried one candidate at a time in a fixed order.
use crate::text::{
    contains_bytes, count_printable_chars, decode_text, lossy_text, occurs_in, printable_chars,
};
use vstd::prelude::*;
use vstd::string::{StrSliceExecFns, StringSliceAdditionalSpecFns};
use vstd::utf8::encode_utf8;

verus! {

/// Number of leading bytes of an unreadable response kept as a sample.
pub const SAMPLE_LEN: usize = 30;

/// A probe stops listening once more than this many bytes came.
pub const ENOUGH_RESPONSE: usize = 50;

/// Longest time a probe listens, in milliseconds.
pub const LISTEN_WINDOW_MS: u64 = 3000;

/// Once something came, a probe stops at the first empty read after this many
/// milliseconds.
pub const QUIET_AFTER_MS: u64 = 500;

/// Whether a probe goes on listening, given the bytes collected so far,
/// whether the last read was empty, and the time since listening began.
pub open spec fn keep_listening_spec(collected: nat, last_read_empty: bool, elapsed_ms: nat) -> bool {
    &&& elapsed_ms < LISTEN_WINDOW_MS
    &&& collected <= ENOUGH_RESPONSE
    &&& !(last_read_empty && collected > 0 && elapsed_ms > QUIET_AFTER_MS)
}

/// Whether a probe goes on listening: within the window, until enough bytes
/// came, and not once the response has started and the channel went quiet.
pub fn keep_listening(collected: usize, last_read_empty: bool, elapsed_ms: u64) -> (r: bool)
    ensures
        r == keep_listening_spec(collected as nat, last_read_empty, elapsed_ms as nat),
{
    elapsed_ms < LISTEN_WINDOW_MS && collected <= ENOUGH_RESPONSE && !(last_read_empty
        && collected > 0 && elapsed_ms > QUIET_AFTER_MS)
}

/// Labels whose presence marks a response as the device's status text:
/// "Fw", "Init", "Version", "Model", "SN", "BT", "Aw:", "Cw:".
pub open spec fn keywords() -> Seq<Seq<u8>> {
    seq![
        seq![0x46u8, 0x77u8],
        seq![0x49u8, 0x6Eu8, 0x69u8, 0x74u8],
        seq![0x56u8, 0x65u8, 0x72u8, 0x73u8, 0x69u8, 0x6Fu8, 0x6Eu8],
        seq![0x4Du8, 0x6Fu8, 0x64u8, 0x65u8, 0x6Cu8],
        seq![0x53u8, 0x4Eu8],
        seq![0x42u8, 0x54u8],
        seq![0x41u8, 0x77u8, 0x3Au8],
        seq![0x43u8, 0x77u8, 0x3Au8],
    ]
}

/// Some keyword stands in `s`.
pub open spec fn mentions_keyword(s: Seq<u8>) -> bool {
    exists|k: int| 0 <= k < keywords().len() && occurs_in(s, #[trigger] keywords()[k])
}

/// The printable characters of the text `t` are more than seven tenths of its
/// length in UTF-8 bytes.
pub open spec fn mostly_printable(t: Seq<char>) -> bool {
    10 * printable_chars(t) > 7 * encode_utf8(t).len()
}

/// How a probe response reads.
#[derive(Debug, Clone, Copy, PartialEq, Eq, Structural)]
pub enum Verdict {
    /// Nothing came back.
    Empty,
    /// A keyword stands in it, or it is mostly printable.
    Readable,
    /// Bytes came back that do not read as text.
    Unreadable,
}

/// How the response `s` reads, given `t`, its decoded text.
pub open spec fn verdict_from(s: Seq<u8>, t: Seq<char>) -> Verdict {
    if s.len() == 0 {
        Verdict::Empty
    } else if mentions_keyword(s) || mostly_printable(t) {
        Verdict::Readable
    } else {
        Verdict::Unreadable
    }
}

/// How the response `s` reads.
pub open spec fn verdict_of(s: Seq<u8>) -> Verdict {
    verdict_from(s, lossy_text(s))
}

/// The first `SAMPLE_LEN` characters of `t` (all of them when it is shorter).
pub open spec fn sample_of(t: Seq<char>) -> Seq<char> {
    t.take(
        if t.len() < SAMPLE_LEN {
            t.len() as int
        } else {
            SAMPLE_LEN as int
        },
    )
}

/// What one candidate rate gave.
#[derive(Debug, Clone, PartialEq, Eq)]
pub enum DiscoveryResult {
    /// The response reads as text; the decoded response.
    Success(String),
    /// Bytes came that do not read as text: their number and a decoded sample.
    PartialData(usize, String),
    /// Nothing came back.
    NoData,
    /// The channel could not be opened at this rate.
    OpenError(String),
}

impl DiscoveryResult {
    pub open spec fn is_success(self) -> bool {
        self is Success
    }
}

/// `r` is the classification of the response `s` whose decoded text is `t`.
pub open spec fn classifies_decoded(r: DiscoveryResult, s: Seq<u8>, t: Seq<char>) -> bool {
    match verdict_from(s, t) {
        Verdict::Empty => r is NoData,
        Verdict::Readable => r is Success && r->Success_0@ == t,
        Verdict::Unreadable => r is PartialData && r->PartialData_0 == s.len() && r->PartialData_1@
            == sample_of(t),
    }
}

/// `r` is the classification of the response `s`.
pub open spec fn classifies(r: DiscoveryResult, s: Seq<u8>) -> bool {
    classifies_decoded(r, s, lossy_text(s))
}

/// `r` is what a probe that ended in `outcome` gave: the open error, or the
/// classification of the response.
pub open spec fn result_of(r: DiscoveryResult, outcome: Result<Seq<u8>, Seq<char>>) -> bool {
    match outcome {
        Ok(s) => classifies(r, s),
        Err(m) => r is OpenError && r->OpenError_0@ == m,
    }
}

/// Whether a keyword stands in `s`.
pub fn has_keyword(s: &[u8]) -> (r: bool)
    ensures
        r == mentions_keyword(s@),
{
    let k0 = [0x46u8, 0x77u8];
    let k1 = [0x49u8, 0x6Eu8, 0x69u8, 0x74u8];
    let k2 = [0x56u8, 0x65u8, 0x72u8, 0x73u8, 0x69u8, 0x6Fu8, 0x6Eu8];
    let k3 = [0x4Du8, 0x6Fu8, 0x64u8, 0x65u8, 0x6Cu8];
    let k4 = [0x53u8, 0x4Eu8];
    let k5 = [0x42u8, 0x54u8];
    let k6 = [0x41u8, 0x77u8, 0x3Au8];
    let k7 = [0x43u8, 0x77u8, 0x3Au8];
    assert(k0@ =~= keywords()[0]);
    assert(k1@ =~= keywords()[1]);
    assert(k2@ =~= keywords()[2]);
    assert(k3@ =~= keywords()[3]);
    assert(k4@ =~= keywords()[4]);
    assert(k5@ =~= keywords()[5]);
    assert(k6@ =~= keywords()[6]);
    assert(k7@ =~= keywords()[7]);
    let r = contains_bytes(s, &k0) || contains_bytes(s, &k1) || contains_bytes(s, &k2)
        || contains_bytes(s, &k3) || contains_bytes(s, &k4) || contains_bytes(s, &k5)
        || contains_bytes(s, &k6) || contains_bytes(s, &k7);
    proof {
        if r {
            if occurs_in(s@, k0@) { assert(occurs_in(s@, keywords()[0])); }
            else if occurs_in(s@, k1@) { assert(occurs_in(s@, keywords()[1])); }
            else if occurs_in(s@, k2@) { assert(occurs_in(s@, keywords()[2])); }
            else if occurs_in(s@, k3@) { assert(occurs_in(s@, keywords()[3])); }
            else if occurs_in(s@, k4@) { assert(occurs_in(s@, keywords()[4])); }
            else if occurs_in(s@, k5@) { assert(occurs_in(s@, keywords()[5])); }
            else if occurs_in(s@, k6@) { assert(occurs_in(s@, keywords()[6])); }
            else { assert(occurs_in(s@, keywords()[7])); }
        }
    }
    r
}

/// How the response `s` reads, given `text`, its decoded text.
pub fn verdict_of_decoded(s: &[u8], text: &str) -> (r: Verdict)
    ensures
        r == verdict_from(s@, text@),
{
    if s.len() == 0 {
        Verdict::Empty
    } else if has_keyword(s) {
        Verdict::Readable
    } else {
        let p = count_printable_chars(text);
        let bytes = text.as_bytes().len();
        if (p as u128) * 10 > (bytes as u128) * 7 {
            Verdict::Readable
        } else {
            Verdict::Unreadable
        }
    }
}

/// How the response `s` reads.
pub fn verdict(s: &[u8]) -> (r: Verdict)
    ensures
        r == verdict_of(s@),
{
    let text = decode_text(s);
    verdict_of_decoded(s, text.as_str())
}

/// Classifies the response `s`, given `text`, its decoded text.
pub fn classify_decoded(s: &[u8], text: String) -> (r: DiscoveryResult)
    ensures
        classifies_decoded(r, s@, text@),
{
    match verdict_of_decoded(s, text.as_str()) {
        Verdict::Empty => DiscoveryResult::NoData,
        Verdict::Readable => DiscoveryResult::Success(text),
        Verdict::Unreadable => {
            let len = text.as_str().unicode_len();
            let n = if len < SAMPLE_LEN {
                len
            } else {
                SAMPLE_LEN
            };
            let sample = text.as_str().substring_char(0, n).to_owned();
            assert(sample@ =~= sample_of(text@));
            DiscoveryResult::PartialData(s.len(), sample)
        },
    }
}

/// Classifies the response to one probe.
pub fn classify(s: &[u8]) -> (r: DiscoveryResult)
    ensures
        classifies(r, s@),
{
    classify_decoded(s, decode_text(s))
}

/// The rates tried when none are given, most common first.
pub open spec fn default_candidates_spec() -> Seq<u32> {
    seq![9600u32, 115200, 19200, 38400, 57600, 14400, 28800, 4800, 2400, 1200, 230400, 460800, 921600]
}

/// The rates tried when none are given, most common first.
pub fn default_candidates() -> (r: Vec<u32>)
    ensures
        r@ == default_candidates_spec(),
{
    let r = vec![9600u32, 115200, 19200, 38400, 57600, 14400, 28800, 4800, 2400, 1200, 230400, 460800, 921600];
    assert(r@ =~= default_candidates_spec());
    r
}

/// What discovery asks for next.
#[derive(Debug, Clone, Copy, PartialEq, Eq, Structural)]
pub enum DiscoveryStep {
    /// Open the channel at this rate, send the probe and hand back what came.
    Probe(u32),
    /// This rate gave a response that reads as text; discovery is over.
    Found(u32),
    /// Every candidate was tried and none gave readable text.
    Exhausted,
}

/// The step that follows once `results` hold the outcomes of the first
/// candidates.
pub open spec fn step_of(candidates: Seq<u32>, results: Seq<DiscoveryResult>) -> DiscoveryStep {
    if results.len() > 0 && results.last().is_success() {
        DiscoveryStep::Found(candidates[results.len() - 1])
    } else if results.len() < candidates.len() {
        DiscoveryStep::Probe(candidates[results.len() as int])
    } else {
        DiscoveryStep::Exhausted
    }
}

/// A discovery run: the candidate rates and one result per rate tried so far.
pub struct Discovery {
    candidates: Vec<u32>,
    results: Vec<DiscoveryResult>,
}

impl Discovery {
    pub closed spec fn candidates_spec(self) -> Seq<u32> {
        self.candidates@
    }

    pub closed spec fn results_spec(self) -> Seq<DiscoveryResult> {
        self.results@
    }

    pub open spec fn step_spec(self) -> DiscoveryStep {
        step_of(self.candidates_spec(), self.results_spec())
    }

    /// Candidates were tried in order, and only the last one tried can have
    /// succeeded.
    pub open spec fn wf(self) -> bool {
        &&& self.results_spec().len() <= self.candidates_spec().len()
        &&& forall|j: int|
            0 <= j < self.results_spec().len() - 1 ==> !(#[trigger] self.results_spec()[j]).is_success()
    }

    /// A run over `candidates`, tried in the order given.
    pub fn new(candidates: Vec<u32>) -> (r: Discovery)
        ensures
            r.wf(),
            r.candidates_spec() == candidates@,
            r.results_spec() == Seq::<DiscoveryResult>::empty(),
    {
        Discovery { candidates, results: Vec::new() }
    }

    /// The candidate rates.
    pub fn candidates(&self) -> (r: &Vec<u32>)
        ensures
            r@ == self.candidates_spec(),
    {
        &self.candidates
    }

    /// One result per candidate tried so far, in order.
    pub fn results(&self) -> (r: &Vec<DiscoveryResult>)
        ensures
            r@ == self.results_spec(),
    {
        &self.results
    }

    /// What to do next.
    pub fn next_step(&self) -> (r: DiscoveryStep)
        requires
            self.wf(),
        ensures
            r == self.step_spec(),
    {
        let n = self.results.len();
        if n > 0 && matches!(self.results[n - 1], DiscoveryResult::Success(_)) {
            DiscoveryStep::Found(self.candidates[n - 1])
        } else if n < self.candidates.len() {
            DiscoveryStep::Probe(self.candidates[n])
        } else {
            DiscoveryStep::Exhausted
        }
    }

    /// Records how the probe at the rate of the current `Probe` step ended (the
    /// bytes that came back, or why the channel did not open) and says what to
    /// do next.
    pub fn record(&mut self, outcome: Result<Vec<u8>, String>) -> (r: DiscoveryStep)
        requires
            old(self).wf(),
            old(self).step_spec() is Probe,
        ensures
            final(self).wf(),
            final(self).candidates_spec() == old(self).candidates_spec(),
            final(self).results_spec().drop_last() == old(self).results_spec(),
            final(self).results_spec().len() == old(self).results_spec().len() + 1,
            result_of(
                final(self).results_spec().last(),
                match outcome {
                    Ok(b) => Ok(b@),
                    Err(m) => Err(m@),
                },
            ),
            r == final(self).step_spec(),
    {
        let res = match outcome {
            Ok(bytes) => classify(bytes.as_slice()),
            Err(message) => DiscoveryResult::OpenError(message),
        };
        self.results.push(res);
        assert(self.results@.drop_last() =~= old(self).results@);
        self.next_step()
    }
}

/// Discovery ends at the first candidate whose response reads as text: it
/// reports that rate, no earlier candidate succeeded, and no later one was
/// tried. When no response reads as text, every candidate is tried and none is
/// reported.
pub proof fn law_discovery_stops_at_first_match(d: Discovery)
    requires
        d.wf(),
    ensures
        d.step_spec() is Found ==> {
            let n = d.results_spec().len();
            &&& n >= 1
            &&& d.step_spec()->Found_0 == d.candidates_spec()[n - 1]
            &&& d.results_spec()[n - 1].is_success()
            &&& forall|j: int| 0 <= j < n - 1 ==> !(#[trigger] d.results_spec()[j]).is_success()
        },
        d.step_spec() is Exhausted ==> {
            &&& d.results_spec().len() == d.candidates_spec().len()
            &&& forall|j: int|
                0 <= j < d.results_spec().len() ==> !(#[trigger] d.results_spec()[j]).is_success()
        },
        d.step_spec() is Probe ==> d.step_spec()->Probe_0 == d.candidates_spec()[d.results_spec().len() as int],
{
}

/// Against a device that gives readable text only at the candidate `k`, the
/// run goes on probing after each earlier candidate and stops at `k`,
/// reporting that rate.
pub proof fn law_discovery_stops_at_readable_rate(
    candidates: Seq<u32>,
    responses: Seq<Seq<u8>>,
    results: Seq<DiscoveryResult>,
    k: int,
)
    requires
        0 <= k < candidates.len(),
        responses.len() == k + 1,
        results.len() == k + 1,
        forall|j: int| 0 <= j <= k ==> classifies(#[trigger] results[j], responses[j]),
        forall|j: int| 0 <= j < k ==> verdict_of(#[trigger] responses[j]) != Verdict::Readable,
        verdict_of(responses[k]) == Verdict::Readable,
    ensures
        step_of(candidates, results) == DiscoveryStep::Found(candidates[k]),
        forall|j: int|
            0 <= j < k ==> step_of(candidates, #[trigger] results.take(j + 1))
                == DiscoveryStep::Probe(candidates[j + 1]),
{
    assert forall|j: int| 0 <= j < k implies step_of(candidates, #[trigger] results.take(j + 1))
        == DiscoveryStep::Probe(candidates[j + 1]) by {
        assert(classifies(results[j], responses[j]));
        assert(results.take(j + 1).last() == results[j]);
    }
    assert(classifies(results[k], responses[k]));
}

/// Against a device that never gives readable text, the run probes every
/// candidate and ends exhausted, reporting no rate.
pub proof fn law_discovery_exhausts_without_readable_rate(
    candidates: Seq<u32>,
    responses: Seq<Seq<u8>>,
    results: Seq<DiscoveryResult>,
)
    requires
        responses.len() == candidates.len(),
        results.len() == candidates.len(),
        forall|j: int| 0 <= j < results.len() ==> classifies(#[trigger] results[j], responses[j]),
        forall|j: int|
            0 <= j < responses.len() ==> verdict_of(#[trigger] responses[j]) != Verdict::Readable,
    ensures
        step_of(candidates, results) == DiscoveryStep::Exhausted,
        forall|j: int|
            0 <= j < results.len() - 1 ==> step_of(candidates, #[trigger] results.take(j + 1))
                == DiscoveryStep::Probe(candidates[j + 1]),
{
    assert forall|j: int|
        0 <= j < results.len() - 1 implies step_of(candidates, #[trigger] results.take(j + 1))
        == DiscoveryStep::Probe(candidates[j + 1]) by {
        assert(classifies(results[j], responses[j]));
        assert(results.take(j + 1).last() == results[j]);
    }
    if results.len() > 0 {
        assert(classifies(results[results.len() - 1], responses[results.len() - 1]));
    }
}

} // verus!
