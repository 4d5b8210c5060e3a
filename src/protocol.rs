//! The device's text protocol: bracket-delimited commands ended by CRLF.
use vstd::prelude::*;
use vstd::string::StringSliceAdditionalSpecFns;

verus! {

/// Name of the status command, which the device answers with its status text.
pub const STATUS_COMMAND: &'static str = "init_status";

/// Name of the shutdown command.
pub const SHUTDOWN_COMMAND: &'static str = "shutdown";

/// Label of the serial-number field of the status text.
pub const SERIAL_LABEL: &'static str = "PROD SN:";

/// Label of the first firmware version field of the status text.
pub const FW0_LABEL: &'static str = "Fw0Version:";

/// Label of the second firmware version field of the status text.
pub const FW1_LABEL: &'static str = "Fw1Version:";

/// ASCII white space (space, tab, line feed, vertical tab, form feed, carriage
/// return).
pub open spec fn is_space(b: u8) -> bool {
    b == 0x20 || (0x09 <= b && b <= 0x0D)
}

/// `s` without its leading white space.
pub open spec fn trim_left(s: Seq<u8>) -> Seq<u8>
    decreases s.len(),
{
    if s.len() > 0 && is_space(s[0]) {
        trim_left(s.skip(1))
    } else {
        s
    }
}

/// `s` without its trailing white space.
pub open spec fn trim_right(s: Seq<u8>) -> Seq<u8>
    decreases s.len(),
{
    if s.len() > 0 && is_space(s.last()) {
        trim_right(s.drop_last())
    } else {
        s
    }
}

/// Length of the line that starts at `from`, up to the next line feed or the end.
pub open spec fn line_len(s: Seq<u8>, from: int) -> nat
    decreases s.len() - from,
{
    if from < 0 || from >= s.len() || s[from] == 0x0A {
        0
    } else {
        1 + line_len(s, from + 1)
    }
}

/// `p` is a prefix of `s`.
pub open spec fn starts_with(s: Seq<u8>, p: Seq<u8>) -> bool {
    p.len() <= s.len() && s.take(p.len() as int) == p
}

/// `later` when it holds a value, else `earlier`.
pub open spec fn later_or(later: Option<Seq<u8>>, earlier: Option<Seq<u8>>) -> Option<Seq<u8>> {
    if later is Some {
        later
    } else {
        earlier
    }
}

/// The value on the line at `from`, when that line starts with `label` (after
/// leading white space): the rest of the line, white space trimmed at both
/// ends.
pub open spec fn value_on_line(s: Seq<u8>, label: Seq<u8>, from: int) -> Option<Seq<u8>> {
    let line = trim_left(s.subrange(from, from + line_len(s, from)));
    if starts_with(line, label) {
        Some(trim_right(trim_left(line.skip(label.len() as int))))
    } else {
        None
    }
}

/// The value of the field `label` in `s` from position `from` on: the value on
/// the last line that starts with `label`.
pub open spec fn field_from(s: Seq<u8>, label: Seq<u8>, from: int) -> Option<Seq<u8>>
    decreases s.len() - from,
{
    if from < 0 || from > s.len() {
        None
    } else {
        let n = line_len(s, from);
        let rest = if from + n >= s.len() {
            None
        } else {
            field_from(s, label, from + n + 1)
        };
        later_or(rest, value_on_line(s, label, from))
    }
}

/// The value of the field `label` in the response `s`.
pub open spec fn field_spec(s: Seq<u8>, label: Seq<u8>) -> Option<Seq<u8>> {
    field_from(s, label, 0)
}

fn space(b: u8) -> (r: bool)
    ensures
        r == is_space(b),
{
    b == 0x20 || (0x09 <= b && b <= 0x0D)
}

/// End of the line that starts at `from`.
fn line_end(s: &[u8], from: usize) -> (r: usize)
    requires
        from <= s@.len(),
    ensures
        r == from + line_len(s@, from as int),
        r <= s@.len(),
{
    let mut i = from;
    while i < s.len() && s[i] != 0x0A
        invariant
            from <= i <= s@.len(),
            from + line_len(s@, from as int) == i + line_len(s@, i as int),
        decreases s@.len() - i,
    {
        i = i + 1;
    }
    i
}

/// First position in `[from, end)` that is not white space, or `end`.
fn skip_spaces(s: &[u8], from: usize, end: usize) -> (r: usize)
    requires
        from <= end <= s@.len(),
    ensures
        from <= r <= end,
        s@.subrange(r as int, end as int) == trim_left(s@.subrange(from as int, end as int)),
{
    let mut i = from;
    while i < end && space(s[i])
        invariant
            from <= i <= end <= s@.len(),
            trim_left(s@.subrange(i as int, end as int)) == trim_left(
                s@.subrange(from as int, end as int),
            ),
        decreases end - i,
    {
        assert(s@.subrange(i as int, end as int).skip(1) =~= s@.subrange(i + 1, end as int));
        i = i + 1;
    }
    proof {
        lemma_trim_left_stops(s@.subrange(i as int, end as int));
    }
    i
}

proof fn lemma_trim_left_stops(t: Seq<u8>)
    requires
        t.len() == 0 || !is_space(t[0]),
    ensures
        trim_left(t) == t,
{
}

/// End of `[start, end)` once its trailing white space is cut off.
fn back_spaces(s: &[u8], start: usize, end: usize) -> (r: usize)
    requires
        start <= end <= s@.len(),
    ensures
        start <= r <= end,
        s@.subrange(start as int, r as int) == trim_right(s@.subrange(start as int, end as int)),
{
    let mut j = end;
    while j > start && space(s[j - 1])
        invariant
            start <= j <= end <= s@.len(),
            trim_right(s@.subrange(start as int, j as int)) == trim_right(
                s@.subrange(start as int, end as int),
            ),
        decreases j - start,
    {
        assert(s@.subrange(start as int, j as int).drop_last() =~= s@.subrange(
            start as int,
            j - 1,
        ));
        j = j - 1;
    }
    j
}

/// Whether `label` stands in `s` at `at`, before `end`.
fn label_at(s: &[u8], at: usize, end: usize, label: &[u8]) -> (r: bool)
    requires
        at <= end <= s@.len(),
    ensures
        r == starts_with(s@.subrange(at as int, end as int), label@),
{
    if label.len() > end - at {
        return false;
    }
    let mut k: usize = 0;
    while k < label.len()
        invariant
            at + label@.len() <= end <= s@.len(),
            k <= label@.len(),
            forall|m: int| 0 <= m < k ==> s@[at + m] == label@[m],
        decreases label@.len() - k,
    {
        if s[at + k] != label[k] {
            assert(s@.subrange(at as int, end as int).take(label@.len() as int)[k as int]
                != label@[k as int]);
            return false;
        }
        k = k + 1;
    }
    assert(s@.subrange(at as int, end as int).take(label@.len() as int) =~= label@);
    true
}

fn copy_range(s: &[u8], a: usize, b: usize) -> (r: Vec<u8>)
    requires
        a <= b <= s@.len(),
    ensures
        r@ == s@.subrange(a as int, b as int),
{
    let mut r: Vec<u8> = Vec::new();
    let mut i = a;
    while i < b
        invariant
            a <= i <= b <= s@.len(),
            r@ == s@.subrange(a as int, i as int),
        decreases b - i,
    {
        r.push(s[i]);
        i = i + 1;
        assert(r@ =~= s@.subrange(a as int, i as int));
    }
    r
}

/// The bytes held by `v`, if any.
pub open spec fn opt_bytes(v: Option<Vec<u8>>) -> Option<Seq<u8>> {
    match v {
        Some(x) => Some(x@),
        None => None,
    }
}

/// The value of the field `label` in the response `s`: on the last line that
/// starts with `label` (after leading white space), the rest of the line with
/// white space trimmed at both ends; `None` when no line does.
pub fn field_value(s: &[u8], label: &[u8]) -> (r: Option<Vec<u8>>)
    ensures
        r is Some <==> field_spec(s@, label@) is Some,
        r is Some ==> r->Some_0@ == field_spec(s@, label@)->Some_0,
{
    let mut found: Option<Vec<u8>> = None;
    let mut from: usize = 0;
    while from <= s.len()
        invariant
            from <= s@.len() + 1,
            later_or(field_from(s@, label@, from as int), opt_bytes(found)) == field_spec(
                s@,
                label@,
            ),
        decreases s@.len() + 1 - from,
    {
        let end = line_end(s, from);
        let start = skip_spaces(s, from, end);
        let ghost line = s@.subrange(start as int, end as int);
        if label_at(s, start, end, label) {
            let a = start + label.len();
            assert(line.skip(label@.len() as int) =~= s@.subrange(a as int, end as int));
            let a2 = skip_spaces(s, a, end);
            let b = back_spaces(s, a2, end);
            found = Some(copy_range(s, a2, b));
        }
        if end >= s.len() {
            return found;
        }
        from = end + 1;
    }
    found
}

/// The bytes of the command `name`: `[`, the name, `,]`, CR, LF.
pub open spec fn command_spec(name: Seq<u8>) -> Seq<u8> {
    seq![0x5Bu8] + name + seq![0x2Cu8, 0x5D, 0x0D, 0x0A]
}

/// The bytes that send the command whose name is the bytes `name`.
pub fn command_bytes(name: &[u8]) -> (r: Vec<u8>)
    ensures
        r@ == command_spec(name@),
{
    let mut r: Vec<u8> = Vec::new();
    r.push(0x5B);
    let mut i: usize = 0;
    while i < name.len()
        invariant
            i <= name@.len(),
            r@ == seq![0x5Bu8] + name@.take(i as int),
        decreases name@.len() - i,
    {
        r.push(name[i]);
        i = i + 1;
        assert(r@ =~= seq![0x5Bu8] + name@.take(i as int));
    }
    r.push(0x2C);
    r.push(0x5D);
    r.push(0x0D);
    r.push(0x0A);
    assert(name@.take(name@.len() as int) =~= name@);
    assert(r@ =~= command_spec(name@));
    r
}

/// The bytes that send the command `name`.
pub fn command_frame(name: &str) -> (r: Vec<u8>)
    ensures
        r@ == command_spec(name.spec_bytes()),
{
    command_bytes(name.as_bytes())
}

/// The suffix that turns a model name into its shutdown command: "_shutdown".
pub open spec fn model_shutdown_suffix() -> Seq<u8> {
    seq![0x5Fu8, 0x73, 0x68, 0x75, 0x74, 0x64, 0x6F, 0x77, 0x6E]
}

/// The shutdown command of the model `model`: `[<model>_shutdown,]` and CRLF.
pub fn model_shutdown_command(model: &str) -> (r: Vec<u8>)
    ensures
        r@ == command_spec(model.spec_bytes() + model_shutdown_suffix()),
{
    let m = model.as_bytes();
    let mut name: Vec<u8> = Vec::new();
    let mut i: usize = 0;
    while i < m.len()
        invariant
            i <= m@.len(),
            name@ == m@.take(i as int),
        decreases m@.len() - i,
    {
        name.push(m[i]);
        i = i + 1;
        assert(name@ =~= m@.take(i as int));
    }
    let suffix = [0x5Fu8, 0x73, 0x68, 0x75, 0x74, 0x64, 0x6F, 0x77, 0x6E];
    let mut j: usize = 0;
    while j < suffix.len()
        invariant
            i == m@.len(),
            j <= 9,
            name@ == m@ + suffix@.take(j as int),
        decreases 9 - j,
    {
        name.push(suffix[j]);
        j = j + 1;
        assert(name@ =~= m@ + suffix@.take(j as int));
    }
    assert(m@.take(m@.len() as int) =~= m@);
    assert(suffix@.take(9) =~= model_shutdown_suffix());
    command_bytes(name.as_slice())
}

/// The status probe.
pub fn status_probe() -> (r: Vec<u8>)
    ensures
        r@ == command_spec(STATUS_COMMAND.spec_bytes()),
{
    command_frame(STATUS_COMMAND)
}

/// The shutdown command.
pub fn shutdown_command() -> (r: Vec<u8>)
    ensures
        r@ == command_spec(SHUTDOWN_COMMAND.spec_bytes()),
{
    command_frame(SHUTDOWN_COMMAND)
}

} // verus!
