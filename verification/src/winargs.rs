//! Starting a confined child on Windows: one command line from an argument
//! list, quoted so that the `CommandLineToArgvW` rules for arguments read the
//! list back, and the order of the steps, which fails closed.
use crate::text::to_chars;
use vstd::prelude::*;
use vstd::string::*;

verus! {

/// `n` backslashes.
pub open spec fn slashes(n: nat) -> Seq<char> {
    Seq::new(n, |i: int| '\\')
}

/// The rest of a quoted argument after `n` backslashes: a quotation mark gets
/// those before it doubled and itself escaped, and those before the closing
/// mark are doubled too.
pub open spec fn escaped(a: Seq<char>, n: nat) -> Seq<char>
    decreases a.len(),
{
    if a.len() == 0 {
        slashes(n)
    } else if a[0] == '\\' {
        seq!['\\'] + escaped(a.drop_first(), n + 1)
    } else if a[0] == '"' {
        slashes(n + 1) + seq!['"'] + escaped(a.drop_first(), 0)
    } else {
        seq![a[0]] + escaped(a.drop_first(), 0)
    }
}

/// An argument in quotation marks.
pub open spec fn quoted_arg(a: Seq<char>) -> Seq<char> {
    seq!['"'] + escaped(a, 0) + seq!['"']
}

/// The command line of an argument list: the quoted arguments with a space
/// between neighbours.
pub open spec fn line_of(args: Seq<Seq<char>>) -> Seq<char>
    decreases args.len(),
{
    if args.len() == 0 {
        Seq::empty()
    } else if args.len() == 1 {
        quoted_arg(args[0])
    } else {
        quoted_arg(args[0]) + seq![' '] + line_of(args.drop_first())
    }
}

/// The UTF-16 code units of one character.
pub open spec fn units(c: char) -> Seq<u16> {
    let n = c as u32;
    if n < 0x10000 {
        seq![n as u16]
    } else {
        seq![
            (0xD800 + (n - 0x10000) / 0x400) as u16,
            (0xDC00 + (n - 0x10000) % 0x400) as u16,
        ]
    }
}

/// The UTF-16 code units of a text.
pub open spec fn utf16(s: Seq<char>) -> Seq<u16>
    decreases s.len(),
{
    if s.len() == 0 {
        Seq::empty()
    } else {
        utf16(s.drop_last()) + units(s.last())
    }
}

fn push_slashes(out: &mut Vec<char>, n: usize)
    ensures
        final(out)@ == old(out)@ + slashes(n as nat),
{
    let mut i: usize = 0;
    assert(out@ + slashes(0) =~= out@);
    while i < n
        invariant
            0 <= i <= n,
            out@ == old(out)@ + slashes(i as nat),
        decreases n - i,
    {
        out.push('\\');
        i = i + 1;
        assert(slashes(i as nat) =~= slashes((i - 1) as nat).push('\\'));
        assert(out@ =~= old(out)@ + slashes(i as nat));
    }
}

fn push_arg(out: &mut Vec<char>, arg: &str)
    ensures
        final(out)@ == old(out)@ + quoted_arg(arg@),
{
    let ghost start = out@;
    let v = to_chars(arg);
    out.push('"');
    let mut n: usize = 0;
    let mut i: usize = 0;
    assert(arg@.skip(0) =~= arg@);
    while i < v.len()
        invariant
            v@ == arg@,
            0 <= i <= v.len(),
            n <= i,
            out@ + escaped(arg@.skip(i as int), n as nat) + seq!['"'] == start + quoted_arg(arg@),
        decreases v.len() - i,
    {
        let c = v[i];
        let ghost rest = arg@.skip(i as int);
        let ghost before = out@;
        assert(rest[0] == c);
        assert(rest.drop_first() =~= arg@.skip(i + 1));
        if c == '\\' {
            n = n + 1;
            out.push('\\');
            assert(out@ + escaped(arg@.skip(i + 1), n as nat) + seq!['"'] =~= before + escaped(
                rest,
                (n - 1) as nat,
            ) + seq!['"']);
        } else if c == '"' {
            push_slashes(out, n);
            out.push('\\');
            out.push('"');
            proof {
                assert(slashes((n + 1) as nat) =~= slashes(n as nat).push('\\'));
                assert(out@ + escaped(arg@.skip(i + 1), 0) + seq!['"'] =~= before + escaped(
                    rest,
                    n as nat,
                ) + seq!['"']);
            }
            n = 0;
        } else {
            out.push(c);
            assert(out@ + escaped(arg@.skip(i + 1), 0) + seq!['"'] =~= before + escaped(
                rest,
                n as nat,
            ) + seq!['"']);
            n = 0;
        }
        i = i + 1;
    }
    assert(arg@.skip(i as int).len() == 0);
    push_slashes(out, n);
    out.push('"');
    assert(out@ =~= start + quoted_arg(arg@));
}

/// The command line for an argument list, as UTF-16 with a terminating zero.
pub fn command_line(args: &[String]) -> (r: Vec<u16>)
    ensures
        r@ == utf16(line_of(crate::text::texts(args@))).push(0),
{
    let ghost all = crate::text::texts(args@);
    let mut out: Vec<char> = Vec::new();
    let mut i: usize = 0;
    assert(all.skip(0) =~= all);
    while i < args.len()
        invariant
            0 <= i <= args.len(),
            all == crate::text::texts(args@),
            i == 0 ==> out@.len() == 0,
            out@ + (if 0 < i < args.len() {
                seq![' ']
            } else {
                Seq::empty()
            }) + line_of(all.skip(i as int)) == line_of(all),
        decreases args.len() - i,
    {
        let ghost before = out@;
        let ghost rest = all.skip(i as int);
        if i > 0 {
            out.push(' ');
        }
        let ghost spaced = out@;
        push_arg(&mut out, args[i].as_str());
        assert(rest[0] == args@[i as int]@);
        assert(rest.drop_first() =~= all.skip(i + 1));
        i = i + 1;
        proof {
            if i < args.len() {
                assert(out@ + seq![' '] + line_of(all.skip(i as int)) =~= spaced + line_of(rest));
            } else {
                assert(rest.len() == 1);
                assert(all.skip(i as int).len() == 0);
                assert(out@ + Seq::<char>::empty() + line_of(all.skip(i as int)) =~= spaced
                    + line_of(rest));
            }
            assert(spaced =~= before + (if 0 < i - 1 {
                seq![' ']
            } else {
                Seq::empty()
            }));
        }
    }
    assert(out@ + Seq::<char>::empty() + line_of(all.skip(i as int)) =~= out@);
    let mut wide: Vec<u16> = Vec::new();
    let mut k: usize = 0;
    while k < out.len()
        invariant
            0 <= k <= out.len(),
            wide@ == utf16(out@.take(k as int)),
        decreases out.len() - k,
    {
        let n: u32 = out[k] as u32;
        let ghost before = wide@;
        if n < 0x10000 {
            wide.push(n as u16);
        } else {
            wide.push((0xD800 + (n - 0x10000) / 0x400) as u16);
            wide.push((0xDC00 + (n - 0x10000) % 0x400) as u16);
        }
        assert(wide@ =~= before + units(out@[k as int]));
        assert(out@.take(k + 1).drop_last() =~= out@.take(k as int));
        k = k + 1;
    }
    assert(out@.take(k as int) =~= out@);
    wide.push(0);
    wide
}

/// The arguments that the `CommandLineToArgvW` rules read from the rest `s` of
/// a command line: `n` backslashes are pending, `quoted` tells whether a
/// quotation is open, `cur` is the argument so far and `begun` whether there is
/// one. An even number of backslashes before a quotation mark stands for half
/// of them, and the mark opens or closes a quotation; an odd number for half of
/// them and the mark itself; other backslashes stand for themselves. White
/// space outside a quotation ends an argument.
pub open spec fn read_args(
    s: Seq<char>,
    n: nat,
    quoted: bool,
    cur: Seq<char>,
    begun: bool,
) -> Seq<Seq<char>>
    decreases s.len(),
{
    if s.len() == 0 {
        if begun {
            seq![cur + slashes(n)]
        } else {
            Seq::empty()
        }
    } else if s[0] == '\\' {
        read_args(s.drop_first(), n + 1, quoted, cur, true)
    } else if s[0] == '"' {
        if n % 2 == 0 {
            read_args(s.drop_first(), 0, !quoted, cur + slashes(n / 2), true)
        } else {
            read_args(s.drop_first(), 0, quoted, (cur + slashes(n / 2)).push('"'), true)
        }
    } else if !quoted && (s[0] == ' ' || s[0] == '\t') {
        if begun {
            seq![cur + slashes(n)] + read_args(s.drop_first(), 0, false, Seq::empty(), false)
        } else {
            read_args(s.drop_first(), 0, false, Seq::empty(), false)
        }
    } else {
        read_args(s.drop_first(), 0, quoted, (cur + slashes(n)).push(s[0]), true)
    }
}

proof fn pending(s: Seq<char>, k: nat, n: nat, cur: Seq<char>)
    ensures
        read_args(slashes(k) + s, n, true, cur, true) == read_args(s, n + k, true, cur, true),
    decreases k,
{
    let t = slashes(k) + s;
    if k == 0 {
        assert(t =~= s);
    } else {
        assert(t[0] == '\\');
        assert(t.drop_first() =~= slashes((k - 1) as nat) + s);
        pending(s, (k - 1) as nat, n + 1, cur);
    }
}

proof fn reads_escaped(a: Seq<char>, k: nat, cur: Seq<char>, rest: Seq<char>)
    ensures
        read_args(escaped(a, k) + seq!['"'] + rest, k, true, cur, true) == read_args(
            rest,
            0,
            false,
            cur + slashes(k) + a,
            true,
        ),
    decreases a.len(),
{
    let t = escaped(a, k) + seq!['"'] + rest;
    if a.len() == 0 {
        let tail = seq!['"'] + rest;
        assert(t =~= slashes(k) + tail);
        pending(tail, k, k, cur);
        assert(tail.drop_first() =~= rest);
        assert(cur + slashes(k) + a =~= cur + slashes(k));
    } else {
        let b = a.drop_first();
        if a[0] == '\\' {
            let u = escaped(b, k + 1) + seq!['"'] + rest;
            assert(t[0] == '\\');
            assert(t.drop_first() =~= u);
            reads_escaped(b, k + 1, cur, rest);
            assert(cur + slashes(k + 1) + b =~= cur + slashes(k) + a);
        } else if a[0] == '"' {
            let u = escaped(b, 0) + seq!['"'] + rest;
            let tail = seq!['"'] + u;
            assert(t =~= slashes(k + 1) + tail);
            pending(tail, k + 1, k, cur);
            assert(tail.drop_first() =~= u);
            let c = (cur + slashes(k)).push('"');
            assert((k + k + 1) / 2 == k);
            reads_escaped(b, 0, c, rest);
            assert(c + slashes(0) + b =~= cur + slashes(k) + a);
        } else {
            let u = escaped(b, 0) + seq!['"'] + rest;
            assert(t[0] == a[0]);
            assert(t.drop_first() =~= u);
            let c = (cur + slashes(k)).push(a[0]);
            reads_escaped(b, 0, c, rest);
            assert(c + slashes(0) + b =~= cur + slashes(k) + a);
        }
    }
}

proof fn reads_arg(a: Seq<char>, rest: Seq<char>)
    ensures
        read_args(quoted_arg(a) + rest, 0, false, Seq::empty(), false) == read_args(
            rest,
            0,
            false,
            a,
            true,
        ),
{
    let t = quoted_arg(a) + rest;
    let u = escaped(a, 0) + seq!['"'] + rest;
    assert(t[0] == '"');
    assert(t.drop_first() =~= u);
    let e = Seq::<char>::empty();
    assert(e + slashes(0) =~= e);
    reads_escaped(a, 0, e, rest);
    assert(e + slashes(0) + a =~= a);
}

/// The rules read every argument list back from its command line.
pub proof fn arguments_read_back(args: Seq<Seq<char>>)
    ensures
        read_args(line_of(args), 0, false, Seq::empty(), false) == args,
    decreases args.len(),
{
    let none = Seq::<Seq<char>>::empty();
    if args.len() == 0 {
        assert(args =~= none);
    } else if args.len() == 1 {
        reads_arg(args[0], Seq::empty());
        assert(quoted_arg(args[0]) + Seq::<char>::empty() =~= line_of(args));
        assert(args[0] + slashes(0) =~= args[0]);
        assert(seq![args[0]] =~= args);
    } else {
        let rest = args.drop_first();
        let tail = seq![' '] + line_of(rest);
        assert(line_of(args) =~= quoted_arg(args[0]) + tail);
        reads_arg(args[0], tail);
        assert(tail.drop_first() =~= line_of(rest));
        arguments_read_back(rest);
        assert(args[0] + slashes(0) =~= args[0]);
        assert(seq![args[0]] + rest =~= args);
    }
}

/// One step of starting a confined child.
#[derive(Debug, Clone, Copy, PartialEq, Eq, Structural)]
pub enum LaunchStep {
    OpenToken,
    DeriveSids,
    RestrictToken,
    CreateJob,
    LimitJob,
    LimitDesktop,
    MakeAttributes,
    AttachJob,
    Spawn,
    Wait,
    ReadExitCode,
}

impl LaunchStep {
    /// The step's place in the order.
    pub open spec fn rank(self) -> int {
        match self {
            LaunchStep::OpenToken => 0,
            LaunchStep::DeriveSids => 1,
            LaunchStep::RestrictToken => 2,
            LaunchStep::CreateJob => 3,
            LaunchStep::LimitJob => 4,
            LaunchStep::LimitDesktop => 5,
            LaunchStep::MakeAttributes => 6,
            LaunchStep::AttachJob => 7,
            LaunchStep::Spawn => 8,
            LaunchStep::Wait => 9,
            LaunchStep::ReadExitCode => 10,
        }
    }

    /// What an error of the step is introduced by.
    pub open spec fn blame(self) -> Seq<char> {
        match self {
            LaunchStep::OpenToken => "OpenProcessToken: "@,
            LaunchStep::DeriveSids => ""@,
            LaunchStep::RestrictToken => "CreateRestrictedToken: "@,
            LaunchStep::CreateJob => "CreateJobObjectW: "@,
            LaunchStep::LimitJob => "SetInformationJobObject(limits): "@,
            LaunchStep::LimitDesktop => "SetInformationJobObject(ui): "@,
            LaunchStep::MakeAttributes => "InitializeProcThreadAttributeList: "@,
            LaunchStep::AttachJob => "UpdateProcThreadAttribute: "@,
            LaunchStep::Spawn => "CreateProcessAsUserW: "@,
            LaunchStep::Wait => "WaitForSingleObject: "@,
            LaunchStep::ReadExitCode => "GetExitCodeProcess: "@,
        }
    }

    fn blamed(self) -> (r: &'static str)
        ensures
            r@ == self.blame(),
    {
        match self {
            LaunchStep::OpenToken => "OpenProcessToken: ",
            LaunchStep::DeriveSids => "",
            LaunchStep::RestrictToken => "CreateRestrictedToken: ",
            LaunchStep::CreateJob => "CreateJobObjectW: ",
            LaunchStep::LimitJob => "SetInformationJobObject(limits): ",
            LaunchStep::LimitDesktop => "SetInformationJobObject(ui): ",
            LaunchStep::MakeAttributes => "InitializeProcThreadAttributeList: ",
            LaunchStep::AttachJob => "UpdateProcThreadAttribute: ",
            LaunchStep::Spawn => "CreateProcessAsUserW: ",
            LaunchStep::Wait => "WaitForSingleObject: ",
            LaunchStep::ReadExitCode => "GetExitCodeProcess: ",
        }
    }
}

/// How a launch goes on.
#[derive(Debug, PartialEq, Eq)]
pub enum Progress {
    Do(LaunchStep),
    /// The launch is refused, for this reason.
    Refused(String),
    /// The child ran and ended with this code.
    Exited(u8),
}

/// The view of a [`Progress`].
#[verifier::ext_equal]
pub enum ProgressV {
    Do(LaunchStep),
    Refused(Seq<char>),
    Exited(u8),
}

impl View for Progress {
    type V = ProgressV;

    open spec fn view(&self) -> ProgressV {
        match *self {
            Progress::Do(s) => ProgressV::Do(s),
            Progress::Refused(w) => ProgressV::Refused(w@),
            Progress::Exited(c) => ProgressV::Exited(c),
        }
    }
}

/// How a launch goes on after a step: the next one in the order, or the end.
/// Only the low byte of the child's code is passed on.
pub open spec fn progress(step: LaunchStep, outcome: Result<u32, Seq<char>>) -> ProgressV {
    match outcome {
        Err(e) => ProgressV::Refused(
            "hotl-sbx: refusing to start the child: "@ + (step.blame() + e),
        ),
        Ok(code) => match step {
            LaunchStep::OpenToken => ProgressV::Do(LaunchStep::DeriveSids),
            LaunchStep::DeriveSids => ProgressV::Do(LaunchStep::RestrictToken),
            LaunchStep::RestrictToken => ProgressV::Do(LaunchStep::CreateJob),
            LaunchStep::CreateJob => ProgressV::Do(LaunchStep::LimitJob),
            LaunchStep::LimitJob => ProgressV::Do(LaunchStep::LimitDesktop),
            LaunchStep::LimitDesktop => ProgressV::Do(LaunchStep::MakeAttributes),
            LaunchStep::MakeAttributes => ProgressV::Do(LaunchStep::AttachJob),
            LaunchStep::AttachJob => ProgressV::Do(LaunchStep::Spawn),
            LaunchStep::Spawn => ProgressV::Do(LaunchStep::Wait),
            LaunchStep::Wait => ProgressV::Do(LaunchStep::ReadExitCode),
            LaunchStep::ReadExitCode => ProgressV::Exited((code % 256) as u8),
        },
    }
}

/// How a launch starts: with nothing to run, it is refused.
pub fn launch(args: &[String]) -> (r: Progress)
    ensures
        r@ == (if args@.len() == 0 {
            ProgressV::Refused("hotl-sbx: nothing to run"@)
        } else {
            ProgressV::Do(LaunchStep::OpenToken)
        }),
{
    if args.len() == 0 {
        Progress::Refused("hotl-sbx: nothing to run".to_owned())
    } else {
        Progress::Do(LaunchStep::OpenToken)
    }
}

/// How a launch goes on after a step.
pub fn advance(step: LaunchStep, outcome: Result<u32, String>) -> (r: Progress)
    ensures
        r@ == progress(
            step,
            match outcome {
                Ok(c) => Ok(c),
                Err(e) => Err(e@),
            },
        ),
{
    let code: u32 = match outcome {
        Ok(c) => c,
        Err(e) => {
            let mut why = step.blamed().to_owned();
            why.append(e.as_str());
            let mut s = "hotl-sbx: refusing to start the child: ".to_owned();
            s.append(why.as_str());
            return Progress::Refused(s);
        },
    };
    match step {
        LaunchStep::OpenToken => Progress::Do(LaunchStep::DeriveSids),
        LaunchStep::DeriveSids => Progress::Do(LaunchStep::RestrictToken),
        LaunchStep::RestrictToken => Progress::Do(LaunchStep::CreateJob),
        LaunchStep::CreateJob => Progress::Do(LaunchStep::LimitJob),
        LaunchStep::LimitJob => Progress::Do(LaunchStep::LimitDesktop),
        LaunchStep::LimitDesktop => Progress::Do(LaunchStep::MakeAttributes),
        LaunchStep::MakeAttributes => Progress::Do(LaunchStep::AttachJob),
        LaunchStep::AttachJob => Progress::Do(LaunchStep::Spawn),
        LaunchStep::Spawn => Progress::Do(LaunchStep::Wait),
        LaunchStep::Wait => Progress::Do(LaunchStep::ReadExitCode),
        LaunchStep::ReadExitCode => Progress::Exited((code % 256) as u8),
    }
}

/// How far a launch gets on these outcomes, one for each step.
pub open spec fn run(outcomes: Seq<Result<u32, Seq<char>>>) -> ProgressV
    decreases outcomes.len(),
{
    if outcomes.len() == 0 {
        ProgressV::Do(LaunchStep::OpenToken)
    } else {
        match run(outcomes.drop_last()) {
            ProgressV::Do(s) => progress(s, outcomes.last()),
            end => end,
        }
    }
}

proof fn run_counts_steps(outcomes: Seq<Result<u32, Seq<char>>>)
    ensures
        run(outcomes) matches ProgressV::Do(s) ==> s.rank() == outcomes.len() && forall|i: int|
            0 <= i < outcomes.len() ==> (#[trigger] outcomes[i]) is Ok,
    decreases outcomes.len(),
{
    if outcomes.len() > 0 {
        let t = outcomes.drop_last();
        run_counts_steps(t);
        if run(outcomes) is Do {
            assert forall|i: int| 0 <= i < outcomes.len() implies (#[trigger] outcomes[i]) is Ok by {
                if i < t.len() {
                    assert(t[i] == outcomes[i]);
                }
            }
        }
    }
}

/// A launch fails closed: the child is spawned only after every step that
/// confines it has succeeded, in order.
pub proof fn nothing_runs_unconfined(outcomes: Seq<Result<u32, Seq<char>>>)
    requires
        run(outcomes) == ProgressV::Do(LaunchStep::Spawn),
    ensures
        outcomes.len() == 8,
        forall|i: int| 0 <= i < 8 ==> (#[trigger] outcomes[i]) is Ok,
{
    run_counts_steps(outcomes);
}

/// Each step that succeeds leads to the next in rank, the last one ends with the
/// child's exit code, in a byte; a step that fails ends the launch with its error.
pub proof fn steps_follow_in_rank(step: LaunchStep, code: u32, error: Seq<char>)
    ensures
        progress(step, Ok(code)) matches ProgressV::Do(s) ==> s.rank() == step.rank() + 1,
        progress(step, Ok(code)) is Do <==> step != LaunchStep::ReadExitCode,
        progress(LaunchStep::ReadExitCode, Ok(code)) matches ProgressV::Exited(c) && c == code
            % 256,
        progress(step, Err(error)) matches ProgressV::Refused(w) && error.is_suffix_of(w),
{
    let w = "hotl-sbx: refusing to start the child: "@ + (step.blame() + error);
    assert(w.skip(w.len() - error.len()) =~= error);
}

/// A launch takes its steps in this order: the token is opened and restricted, the
/// job made and limited and put among the child's attributes; only after that is
/// the child started, waited for, and its exit code read.
pub proof fn launches_go_so(n: nat, codes: Seq<Result<u32, Seq<char>>>)
    requires
        codes.len() == n,
        n <= 10,
        forall|i: int| 0 <= i < n ==> (#[trigger] codes[i]) is Ok,
    ensures
        run(codes) == ProgressV::Do(
            seq![
                LaunchStep::OpenToken,
                LaunchStep::DeriveSids,
                LaunchStep::RestrictToken,
                LaunchStep::CreateJob,
                LaunchStep::LimitJob,
                LaunchStep::LimitDesktop,
                LaunchStep::MakeAttributes,
                LaunchStep::AttachJob,
                LaunchStep::Spawn,
                LaunchStep::Wait,
                LaunchStep::ReadExitCode,
            ][n as int],
        ),
    decreases n,
{
    if n > 0 {
        let t = codes.drop_last();
        assert forall|i: int| 0 <= i < t.len() implies (#[trigger] t[i]) is Ok by {
            assert(t[i] == codes[i]);
        }
        launches_go_so((n - 1) as nat, t);
        assert(codes[n - 1] is Ok);
    }
}

/// A failure is final: whatever comes after it, nothing more is done.
pub proof fn failures_are_final(outcomes: Seq<Result<u32, Seq<char>>>, later: Result<u32, Seq<char>>)
    ensures
        run(outcomes) !is Do ==> run(outcomes.push(later)) == run(outcomes),
        outcomes.len() > 0 && outcomes.last() is Err ==> run(outcomes) is Refused || run(
            outcomes.drop_last(),
        ) is Exited,
{
    assert(outcomes.push(later).drop_last() =~= outcomes);
    if outcomes.len() > 0 {
        let t = outcomes.drop_last();
        match run(t) {
            ProgressV::Do(s) => {},
            ProgressV::Refused(w) => {},
            ProgressV::Exited(c) => {},
        }
    }
}

/// A character is one unit of its own number, or two that stand for it together:
/// a high one and a low one.
pub proof fn units_stand_for_their_character(c: char)
    ensures
        (c as u32) < 0x10000 ==> units(c).len() == 1 && units(c)[0] == c as u32,
        c as u32 >= 0x10000 ==> {
            let u = units(c);
            &&& u.len() == 2
            &&& 0xD800 <= u[0] <= 0xDBFF
            &&& 0xDC00 <= u[1] <= 0xDFFF
            &&& c as u32 == 0x10000 + (u[0] - 0xD800) * 0x400 + (u[1] - 0xDC00)
        },
{
    let n = c as u32;
    assert(n <= 0x10FFFF);
}

/// The units of a text are those of its characters, one after the other.
pub proof fn units_follow_the_text(a: Seq<char>, b: Seq<char>)
    ensures
        utf16(a + b) == utf16(a) + utf16(b),
        a.len() == 1 ==> utf16(a) == units(a[0]),
    decreases b.len(),
{
    if a.len() == 1 {
        assert(a.drop_last() =~= Seq::<char>::empty());
        assert(utf16(Seq::<char>::empty()) =~= Seq::<u16>::empty());
        assert(utf16(a) =~= units(a[0]));
    }
    if b.len() == 0 {
        assert(a + b =~= a);
        assert(utf16(a) + utf16(b) =~= utf16(a));
    } else {
        units_follow_the_text(a, b.drop_last());
        assert((a + b).drop_last() =~= a + b.drop_last());
        assert(utf16(a + b) =~= utf16(a) + utf16(b));
    }
}

} // verus!
