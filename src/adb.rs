//! The device list that the debug bridge prints, and how its commands are
//! put together.
use vstd::prelude::*;
use crate::utf8_text::{lossy_text, text_from_bytes};
use crate::wire::copy_range;
use vstd::utf8::{valid_utf8, decode_utf8};

verus! {

/// The debug bridge executable.
#[derive(Clone, Debug)]
pub struct DebugBridge {
    pub adb_path: String,
}

/// A device that the debug bridge listed.
#[derive(Clone, Debug)]
pub struct Device {
    pub debug_bridge: DebugBridge,
    pub serial_number: String,
}

impl Device {
    /// The bridge arguments that run `command` on this device: the device is
    /// selected with `-s` and its serial first.
    pub fn command_args(&self, command: Vec<String>) -> (r: Vec<String>)
        ensures
            r@.len() == command@.len() + 2,
            r@[0]@ == "-s"@,
            r@[1]@ == self.serial_number@,
            forall|i: int| 0 <= i < command@.len() ==> r@[i + 2] == #[trigger] command@[i],
    {
        let mut command = command;
        command.insert(0, "-s".to_owned());
        command.insert(1, self.serial_number.clone());
        command
    }
}

/// The bridge arguments that run `command` in a shell: `shell` comes first.
pub fn shell_args(command: Vec<String>) -> (r: Vec<String>)
    ensures
        r@.len() == command@.len() + 1,
        r@[0]@ == "shell"@,
        forall|i: int| 0 <= i < command@.len() ==> r@[i + 1] == #[trigger] command@[i],
{
    let mut command = command;
    command.insert(0, "shell".to_owned());
    command
}

/// What a finished command left: its exit code (`None` when a signal ended
/// it) and its captured output.
pub struct CommandOutput {
    pub status_code: Option<i32>,
    pub stdout: Vec<u8>,
    pub stderr: Vec<u8>,
}

pub struct Error {
    pub output: CommandOutput,
    pub kind: ErrorKind,
}

#[derive(Clone, Copy, Debug, PartialEq, Eq, Structural)]
pub enum ErrorKind {
    NonSuccessExitCode,
    ParseFailure,
}

pub open spec fn succeeded(o: CommandOutput) -> bool {
    o.status_code == Some(0i32)
}

/// Passes on the output of a command that succeeded; any other exit is an error
/// that carries the whole output.
pub fn check_exit(output: CommandOutput) -> (r: Result<CommandOutput, Error>)
    ensures
        succeeded(output) ==> r == Ok::<CommandOutput, Error>(output),
        !succeeded(output) ==> r == Err::<CommandOutput, Error>(
            Error { output, kind: ErrorKind::NonSuccessExitCode },
        ),
{
    let ok = match output.status_code {
        Some(code) => code == 0,
        None => false,
    };
    if ok {
        Ok(output)
    } else {
        Err(Error { output, kind: ErrorKind::NonSuccessExitCode })
    }
}

/// How many bytes of white space start at `i`: the ASCII white space, and the
/// UTF-8 encodings of the other Unicode white space characters (U+0085,
/// U+00A0, U+1680, U+2000 to U+200A, U+2028, U+2029, U+202F, U+205F, U+3000);
/// zero where none starts.
pub open spec fn space_width(l: Seq<u8>, i: int) -> int {
    if i < 0 || i >= l.len() {
        0
    } else if is_space(l[i]) {
        1
    } else if i + 2 <= l.len() && l[i] == 0xC2 && (l[i + 1] == 0x85 || l[i + 1] == 0xA0) {
        2
    } else if i + 3 <= l.len() && ((l[i] == 0xE1 && l[i + 1] == 0x9A && l[i + 2] == 0x80) || (l[i]
        == 0xE2 && l[i + 1] == 0x80 && ((0x80 <= l[i + 2] && l[i + 2] <= 0x8A) || l[i + 2] == 0xA8
        || l[i + 2] == 0xA9 || l[i + 2] == 0xAF)) || (l[i] == 0xE2 && l[i + 1] == 0x81 && l[i + 2]
        == 0x9F) || (l[i] == 0xE3 && l[i + 1] == 0x80 && l[i + 2] == 0x80)) {
        3
    } else {
        0
    }
}

pub open spec fn is_space(c: u8) -> bool {
    c == 32 || c == 9 || c == 10 || c == 11 || c == 12 || c == 13
}

/// The lines of `b` from position `p`, where `cur` is the part of the current
/// line already passed: split at `\n`, a `\r` before it dropped, no line after
/// a final `\n`.
pub open spec fn lines_from(b: Seq<u8>, p: int, cur: Seq<u8>) -> Seq<Seq<u8>>
    decreases b.len() - p,
{
    if p >= b.len() {
        if cur.len() == 0 {
            seq![]
        } else {
            seq![cur]
        }
    } else if b[p] == 10 {
        seq![strip_cr(cur)] + lines_from(b, p + 1, seq![])
    } else {
        lines_from(b, p + 1, cur.push(b[p]))
    }
}

pub open spec fn strip_cr(l: Seq<u8>) -> Seq<u8> {
    if l.len() > 0 && l.last() == 13 {
        l.drop_last()
    } else {
        l
    }
}

pub open spec fn lines(b: Seq<u8>) -> Seq<Seq<u8>> {
    lines_from(b, 0, seq![])
}

pub open spec fn device_word() -> Seq<u8> {
    seq![100u8, 101u8, 118u8, 105u8, 99u8, 101u8]
}

/// Start and end of the last whitespace-delimited token from `i` on, if any.
pub open spec fn last_token_from(l: Seq<u8>, i: int) -> Option<(int, int)>
    decreases l.len() - i,
{
    if i < 0 || i >= l.len() {
        None
    } else {
        let s = token_start(l, i);
        let e = token_end(l, s);
        if s >= l.len() || e <= i || e > l.len() {
            None
        } else {
            match last_token_from(l, e) {
                Some(t) => Some(t),
                None => Some((s, e)),
            }
        }
    }
}

/// The line's last token is the word `device`.
pub open spec fn is_device_line(l: Seq<u8>) -> bool {
    match last_token_from(l, 0) {
        Some((s, e)) => l.subrange(s, e) == device_word(),
        None => false,
    }
}

/// The first position from `i` on that does not hold white space.
pub open spec fn token_start(l: Seq<u8>, i: int) -> int
    decreases l.len() - i,
{
    if i >= l.len() || i < 0 {
        l.len() as int
    } else if space_width(l, i) > 0 {
        token_start(l, i + space_width(l, i))
    } else {
        i
    }
}

/// The first position from `i` on that holds white space.
pub open spec fn token_end(l: Seq<u8>, i: int) -> int
    decreases l.len() - i,
{
    if i >= l.len() || i < 0 {
        l.len() as int
    } else if space_width(l, i) > 0 {
        i
    } else {
        token_end(l, i + 1)
    }
}

/// A token stands before the line's last one.
pub open spec fn has_serial(l: Seq<u8>) -> bool {
    match last_token_from(l, 0) {
        Some((s, _)) => token_start(l, 0) < s,
        None => false,
    }
}

/// The line's first whitespace-delimited token.
pub open spec fn first_token(l: Seq<u8>) -> Seq<u8> {
    l.subrange(token_start(l, 0), token_end(l, token_start(l, 0)))
}

/// The serials of the device lines, or `None` where such a line
/// has no token before `device`.
pub open spec fn serials(ls: Seq<Seq<u8>>) -> Option<Seq<Seq<u8>>>
    decreases ls.len(),
{
    if ls.len() == 0 {
        Some(seq![])
    } else if !is_device_line(ls[0]) {
        serials(ls.drop_first())
    } else if !has_serial(ls[0]) {
        None
    } else {
        match serials(ls.drop_first()) {
            Some(rest) => Some(seq![first_token(ls[0])] + rest),
            None => None,
        }
    }
}

pub open spec fn prepend_serials(head: Seq<Seq<u8>>, rest: Option<Seq<Seq<u8>>>) -> Option<
    Seq<Seq<u8>>,
> {
    match rest {
        Some(r) => Some(head + r),
        None => None,
    }
}

fn skip_space(l: &Vec<u8>, i: usize) -> (r: usize)
    requires
        i <= l.len(),
    ensures
        r == token_start(l@, i as int),
{
    let mut j = i;
    while j < l.len() && space_at(l, j) > 0
        invariant
            i <= j <= l.len(),
            token_start(l@, i as int) == token_start(l@, j as int),
        decreases l.len() - j,
    {
        j = j + space_at(l, j);
    }
    j
}

fn skip_token(l: &Vec<u8>, i: usize) -> (r: usize)
    requires
        i <= l.len(),
    ensures
        r == token_end(l@, i as int),
{
    let mut j = i;
    while j < l.len() && space_at(l, j) == 0
        invariant
            i <= j <= l.len(),
            token_end(l@, i as int) == token_end(l@, j as int),
        decreases l.len() - j,
    {
        j = j + 1;
    }
    j
}

fn is_space_byte(c: u8) -> (r: bool)
    ensures
        r == is_space(c),
{
    c == 32 || c == 9 || c == 10 || c == 11 || c == 12 || c == 13
}

fn space_at(l: &Vec<u8>, i: usize) -> (r: usize)
    requires
        i < l.len(),
    ensures
        r as int == space_width(l@, i as int),
        i + r <= l.len(),
{
    let n = l.len() - i;
    let c = l[i];
    if is_space_byte(c) {
        1
    } else if n >= 2 && c == 0xC2 && (l[i + 1] == 0x85 || l[i + 1] == 0xA0) {
        2
    } else if n >= 3 && ((c == 0xE1 && l[i + 1] == 0x9A && l[i + 2] == 0x80) || (c == 0xE2 && l[i
        + 1] == 0x80 && ((0x80 <= l[i + 2] && l[i + 2] <= 0x8A) || l[i + 2] == 0xA8 || l[i + 2]
        == 0xA9 || l[i + 2] == 0xAF)) || (c == 0xE2 && l[i + 1] == 0x81 && l[i + 2] == 0x9F) || (c
        == 0xE3 && l[i + 1] == 0x80 && l[i + 2] == 0x80)) {
        3
    } else {
        0
    }
}

proof fn lemma_token_start_bounds(l: Seq<u8>, i: int)
    requires
        0 <= i <= l.len(),
    ensures
        i <= token_start(l, i) <= l.len(),
        token_start(l, i) < l.len() ==> space_width(l, token_start(l, i)) == 0,
    decreases l.len() - i,
{
    if i < l.len() && space_width(l, i) > 0 {
        lemma_token_start_bounds(l, i + space_width(l, i));
    }
}

/// Start and end of the line's last token.
fn last_token(l: &Vec<u8>) -> (r: Option<(usize, usize)>)
    ensures
        match r {
            Some((s, e)) => last_token_from(l@, 0) == Some((s as int, e as int)) && s < e <= l.len(),
            None => last_token_from(l@, 0) is None,
        },
{
    let mut last: Option<(usize, usize)> = None;
    let mut i: usize = 0;
    while i < l.len()
        invariant
            i <= l.len(),
            last_token_from(l@, 0) == (match last_token_from(l@, i as int) {
                Some(t) => Some(t),
                None => match last {
                    Some((s, e)) => Some((s as int, e as int)),
                    None => None,
                },
            }),
            last matches Some((s, e)) ==> s < e <= l.len(),
        decreases l.len() - i,
    {
        let s = skip_space(l, i);
        proof {
            lemma_token_start_bounds(l@, i as int);
        }
        if s >= l.len() {
            i = l.len();
        } else {
            let e = skip_token(l, s);
            proof {
                lemma_token_end_bounds(l@, s as int + 1);
            }
            last = Some((s, e));
            i = e;
        }
    }
    last
}

fn is_device_word(l: &Vec<u8>, s: usize, e: usize) -> (r: bool)
    requires
        s <= e <= l.len(),
    ensures
        r == (l@.subrange(s as int, e as int) == device_word()),
{
    if e - s != 6 {
        assert(l@.subrange(s as int, e as int).len() != device_word().len());
        return false;
    }
    let r = l[s] == 100 && l[s + 1] == 101 && l[s + 2] == 118 && l[s + 3] == 105 && l[s + 4] == 99
        && l[s + 5] == 101;
    assert(r ==> l@.subrange(s as int, e as int) =~= device_word());
    assert(l@.subrange(s as int, e as int) == device_word() ==> l@.subrange(s as int, e as int)[0]
        == 100 && l@.subrange(s as int, e as int)[1] == 101 && l@.subrange(s as int, e as int)[2]
        == 118 && l@.subrange(s as int, e as int)[3] == 105 && l@.subrange(s as int, e as int)[4]
        == 99 && l@.subrange(s as int, e as int)[5] == 101);
    r
}

/// What a line adds: nothing, a serial, or a failure.
enum LineOutcome {
    Skip,
    Serial(Vec<u8>),
    Missing,
}

fn line_outcome(l: &Vec<u8>) -> (r: LineOutcome)
    ensures
        match r {
            LineOutcome::Skip => !is_device_line(l@),
            LineOutcome::Serial(s) => is_device_line(l@) && has_serial(l@) && s@ == first_token(l@),
            LineOutcome::Missing => is_device_line(l@) && !has_serial(l@),
        },
{
    let (last_start, last_end) = match last_token(l) {
        Some(t) => t,
        None => return LineOutcome::Skip,
    };
    if !is_device_word(l, last_start, last_end) {
        return LineOutcome::Skip;
    }
    let start = skip_space(l, 0);
    if start >= last_start {
        return LineOutcome::Missing;
    }
    let end = skip_token(l, start);
    proof {
        lemma_token_end_bounds(l@, start as int);
    }
    LineOutcome::Serial(copy_range(l.as_slice(), start, end))
}

proof fn lemma_token_end_bounds(l: Seq<u8>, i: int)
    requires
        0 <= i <= l.len(),
    ensures
        i <= token_end(l, i) <= l.len(),
    decreases l.len() - i,
{
    if i < l.len() && space_width(l, i) == 0 {
        lemma_token_end_bounds(l, i + 1);
    }
}

impl DebugBridge {
    /// The devices that the output of the bridge's `devices` command lists:
    /// one for each line whose last whitespace-delimited token is `device`,
    /// named by the line's first token. A failed command, or such a line with
    /// no token before `device`, is an error.
    pub fn get_devices(&self, output: CommandOutput) -> (r: Result<Vec<Device>, Error>)
        ensures
            !succeeded(output) ==> (r matches Err(e) && e.kind == ErrorKind::NonSuccessExitCode
                && e.output == output),
            succeeded(output) ==> match serials(lines(output.stdout@)) {
                Some(s) => (r matches Ok(ds) && ds@.len() == s.len() && forall|i: int|
                    0 <= i < s.len() ==> (#[trigger] ds@[i]).serial_number@ == lossy_text(s[i])
                        && (valid_utf8(s[i]) ==> ds@[i].serial_number@ == decode_utf8(s[i]))
                        && ds@[i].debug_bridge.adb_path@ == self.adb_path@),
                None => (r matches Err(e) && e.kind == ErrorKind::ParseFailure && e.output
                    == output),
            },
    {
        let output = match check_exit(output) {
            Ok(o) => o,
            Err(e) => return Err(e),
        };
        let b = &output.stdout;
        let ghost whole = serials(lines(b@));
        let ghost acc: Seq<Seq<u8>> = seq![];
        let mut result: Vec<Device> = Vec::new();
        let mut line_start: usize = 0;
        let mut p: usize = 0;
        let mut failed = false;
        proof {
            assert(b@.subrange(0, 0) =~= Seq::<u8>::empty());
            match serials(lines(b@)) {
                Some(r) => assert(acc + r =~= r),
                None => {},
            }
        }
        while p < b.len()
            invariant
                line_start <= p <= b.len(),
                b@ == output.stdout@,
                !failed ==> whole == prepend_serials(
                    acc,
                    serials(lines_from(b@, p as int, b@.subrange(line_start as int, p as int))),
                ),
                failed ==> whole is None,
                result@.len() == acc.len(),
                forall|i: int|
                    0 <= i < acc.len() ==> (#[trigger] result@[i]).serial_number@ == lossy_text(
                        acc[i],
                    ) && (valid_utf8(acc[i]) ==> result@[i].serial_number@ == decode_utf8(acc[i]))
                        && result@[i].debug_bridge.adb_path@ == self.adb_path@,
            decreases b.len() - p,
        {
            if b[p] != 10 {
                proof {
                    assert(b@.subrange(line_start as int, p as int).push(b@[p as int]) =~= b@.subrange(
                        line_start as int,
                        p as int + 1,
                    ));
                }
                p = p + 1;
            } else {
                let ghost cur = b@.subrange(line_start as int, p as int);
                let mut end = p;
                if end > line_start && b[end - 1] == 13 {
                    end = end - 1;
                }
                let line = copy_range(b.as_slice(), line_start, end);
                let ghost rest = lines_from(b@, p + 1, seq![]);
                let ghost ls = seq![line@] + rest;
                proof {
                    assert(line@ =~= strip_cr(cur));
                    assert(ls.drop_first() =~= rest);
                    assert(ls[0] == line@);
                }
                match line_outcome(&line) {
                    LineOutcome::Skip => {},
                    LineOutcome::Missing => {
                        failed = true;
                    },
                    LineOutcome::Serial(s) => {
                        let serial_number = text_from_bytes(s.as_slice());
                        let adb_path = self.adb_path.clone();
                        result.push(Device { debug_bridge: DebugBridge { adb_path }, serial_number });
                        proof {
                            match serials(rest) {
                                Some(r) => {
                                    assert(acc + (seq![s@] + r) =~= acc.push(s@) + r);
                                },
                                None => {},
                            }
                            acc = acc.push(s@);
                        }
                    },
                }
                if failed {
                    p = b.len();
                } else {
                    proof {
                        assert(b@.subrange(p + 1, p + 1) =~= Seq::<u8>::empty());
                    }
                    p = p + 1;
                    line_start = p;
                }
            }
        }
        if !failed && line_start < b.len() {
            let line = copy_range(b.as_slice(), line_start, b.len());
            proof {
                assert(lines_from(b@, p as int, line@) == seq![line@]);
                assert(seq![line@].drop_first() =~= Seq::<Seq<u8>>::empty());
                assert(seq![line@][0] == line@);
            }
            match line_outcome(&line) {
                LineOutcome::Skip => {
                    proof {
                        assert(serials(seq![line@]) == serials(Seq::<Seq<u8>>::empty()));
                        assert(acc + Seq::<Seq<u8>>::empty() =~= acc);
                    }
                },
                LineOutcome::Missing => {
                    failed = true;
                },
                LineOutcome::Serial(s) => {
                    let serial_number = text_from_bytes(s.as_slice());
                    let adb_path = self.adb_path.clone();
                    result.push(Device { debug_bridge: DebugBridge { adb_path }, serial_number });
                    proof {
                        assert(acc + (seq![s@] + Seq::<Seq<u8>>::empty()) =~= acc.push(s@));
                        acc = acc.push(s@);
                    }
                },
            }
        } else if !failed {
            proof {
                assert(b@.subrange(line_start as int, p as int) =~= Seq::<u8>::empty());
                assert(lines_from(b@, p as int, Seq::<u8>::empty()) == Seq::<Seq<u8>>::empty());
                assert(acc + Seq::<Seq<u8>>::empty() =~= acc);
            }
        }
        if failed {
            Err(Error { output, kind: ErrorKind::ParseFailure })
        } else {
            Ok(result)
        }
    }
}

} // verus!
