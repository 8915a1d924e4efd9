//! The headless surface: what each engine event prints and answers, and when
//! the run ends.
use crate::text::{decimal, decimal_of, decimal_signed, signed_decimal_of};
use vstd::prelude::*;
use vstd::string::*;

verus! {

/// How a turn ended.
#[derive(Debug, PartialEq, Eq)]
pub enum Outcome {
    Done,
    Cancelled,
    TurnLimit,
    Refused,
    DoomLoop { pattern: String },
    ToolFailureBudget { tool: String },
    Error { message: String },
}

/// The view of an [`Outcome`].
#[verifier::ext_equal]
pub enum OutcomeV {
    Done,
    Cancelled,
    TurnLimit,
    Refused,
    DoomLoop(Seq<char>),
    ToolFailureBudget(Seq<char>),
    Error(Seq<char>),
}

impl View for Outcome {
    type V = OutcomeV;

    open spec fn view(&self) -> OutcomeV {
        match *self {
            Outcome::Done => OutcomeV::Done,
            Outcome::Cancelled => OutcomeV::Cancelled,
            Outcome::TurnLimit => OutcomeV::TurnLimit,
            Outcome::Refused => OutcomeV::Refused,
            Outcome::DoomLoop { pattern } => OutcomeV::DoomLoop(pattern@),
            Outcome::ToolFailureBudget { tool } => OutcomeV::ToolFailureBudget(tool@),
            Outcome::Error { message } => OutcomeV::Error(message@),
        }
    }
}

/// The exit code of an outcome.
pub open spec fn code_of(o: OutcomeV) -> i32 {
    match o {
        OutcomeV::Done => 0,
        OutcomeV::Cancelled => 130,
        _ => 1,
    }
}

/// The exit code of an outcome.
pub fn exit_code(outcome: &Outcome) -> (r: i32)
    ensures
        r == code_of(outcome@),
{
    match outcome {
        Outcome::Done => 0,
        Outcome::Cancelled => 130,
        _ => 1,
    }
}

/// What an interrupt does: the first one interrupts the turn, a second one
/// stops waiting for it.
pub fn sigint_escalation(interrupt_pending: bool) -> (r: Option<i32>)
    ensures
        r == (if interrupt_pending {
            Some(code_of(OutcomeV::Cancelled))
        } else {
            None
        }),
{
    if interrupt_pending {
        Some(exit_code(&Outcome::Cancelled))
    } else {
        None
    }
}

/// What the engine tells the headless surface.
#[derive(Debug)]
pub enum SurfaceEvent {
    TextDelta(String),
    ThinkingDelta,
    ToolStart { summary: String },
    ToolDone { ok: bool },
    ToolDenied,
    ToolAutoAllowed { name: String, rule: String },
    Retrying { attempt: u64, reason: String },
    FallbackModel { model: String },
    PromptQueued,
    Compacted { degraded: bool },
    Ask { summary: String },
    EgressAsk { host: String },
    Question { header: String },
    TurnDone { outcome: Outcome, input: u64, output: u64, cache_read: u64 },
    /// For each item of the checklist, whether it is completed.
    TodosChanged { completed: Vec<bool> },
    LedgerReport,
}

/// The view of a [`SurfaceEvent`].
pub enum SurfaceEventV {
    TextDelta(Seq<char>),
    ThinkingDelta,
    ToolStart(Seq<char>),
    ToolDone(bool),
    ToolDenied,
    ToolAutoAllowed(Seq<char>, Seq<char>),
    Retrying(u64, Seq<char>),
    FallbackModel(Seq<char>),
    PromptQueued,
    Compacted(bool),
    Ask(Seq<char>),
    EgressAsk(Seq<char>),
    Question(Seq<char>),
    TurnDone { outcome: OutcomeV, input: u64, output: u64, cache_read: u64 },
    TodosChanged(Seq<bool>),
    LedgerReport,
}

impl View for SurfaceEvent {
    type V = SurfaceEventV;

    open spec fn view(&self) -> SurfaceEventV {
        match *self {
            SurfaceEvent::TextDelta(t) => SurfaceEventV::TextDelta(t@),
            SurfaceEvent::ThinkingDelta => SurfaceEventV::ThinkingDelta,
            SurfaceEvent::ToolStart { summary } => SurfaceEventV::ToolStart(summary@),
            SurfaceEvent::ToolDone { ok } => SurfaceEventV::ToolDone(ok),
            SurfaceEvent::ToolDenied => SurfaceEventV::ToolDenied,
            SurfaceEvent::ToolAutoAllowed { name, rule } => SurfaceEventV::ToolAutoAllowed(
                name@,
                rule@,
            ),
            SurfaceEvent::Retrying { attempt, reason } => SurfaceEventV::Retrying(
                attempt,
                reason@,
            ),
            SurfaceEvent::FallbackModel { model } => SurfaceEventV::FallbackModel(model@),
            SurfaceEvent::PromptQueued => SurfaceEventV::PromptQueued,
            SurfaceEvent::Compacted { degraded } => SurfaceEventV::Compacted(degraded),
            SurfaceEvent::Ask { summary } => SurfaceEventV::Ask(summary@),
            SurfaceEvent::EgressAsk { host } => SurfaceEventV::EgressAsk(host@),
            SurfaceEvent::Question { header } => SurfaceEventV::Question(header@),
            SurfaceEvent::TurnDone { outcome, input, output, cache_read } =>
                SurfaceEventV::TurnDone { outcome: outcome@, input, output, cache_read },
            SurfaceEvent::TodosChanged { completed } => SurfaceEventV::TodosChanged(completed@),
            SurfaceEvent::LedgerReport => SurfaceEventV::LedgerReport,
        }
    }
}

/// What the surface answers where a human is asked for. None of these grants
/// anything.
#[derive(Debug, Clone, Copy, PartialEq, Eq, Structural)]
pub enum Refusal {
    /// A permission ask is denied.
    DenyAsk,
    /// An egress ask is left without an answer.
    NoEgressAnswer,
    /// A question is told that there is no human.
    NoHuman,
}

/// What the surface does.
#[derive(Debug, PartialEq, Eq)]
pub enum Out {
    /// To standard output, as it is.
    Print(String),
    /// To standard error, as a line.
    Note(String),
    Reply(Refusal),
    /// The event's frame, as a line of standard output.
    Frame,
}

/// The view of an [`Out`].
#[verifier::ext_equal]
pub enum OutV {
    Print(Seq<char>),
    Note(Seq<char>),
    Reply(Refusal),
    Frame,
}

impl View for Out {
    type V = OutV;

    open spec fn view(&self) -> OutV {
        match *self {
            Out::Print(s) => OutV::Print(s@),
            Out::Note(s) => OutV::Note(s@),
            Out::Reply(a) => OutV::Reply(a),
            Out::Frame => OutV::Frame,
        }
    }
}

/// The views of a list of outputs.
pub open spec fn outs(v: Seq<Out>) -> Seq<OutV> {
    Seq::new(v.len(), |i: int| v[i]@)
}

/// The headless surface.
#[derive(Debug)]
pub struct Surface {
    pub json: bool,
    pub turn_running: bool,
    /// Text was printed and its line is still open.
    pub saw_text: bool,
    pub interrupt_pending: bool,
    /// The cap on model steps, to name it where it stops a turn.
    pub max_turns: i64,
    /// The model's bare name.
    pub model: String,
}

/// The view of a [`Surface`].
#[verifier::ext_equal]
pub struct SurfaceV {
    pub json: bool,
    pub turn_running: bool,
    pub saw_text: bool,
    pub interrupt_pending: bool,
    pub max_turns: i64,
    pub model: Seq<char>,
}

impl View for Surface {
    type V = SurfaceV;

    open spec fn view(&self) -> SurfaceV {
        SurfaceV {
            json: self.json,
            turn_running: self.turn_running,
            saw_text: self.saw_text,
            interrupt_pending: self.interrupt_pending,
            max_turns: self.max_turns,
            model: self.model@,
        }
    }
}

/// What a person asked gets to hear of each kind of ask.
pub open spec fn refusal(e: SurfaceEventV) -> Option<Refusal> {
    match e {
        SurfaceEventV::Ask(_) => Some(Refusal::DenyAsk),
        SurfaceEventV::EgressAsk(_) => Some(Refusal::NoEgressAnswer),
        SurfaceEventV::Question(_) => Some(Refusal::NoHuman),
        _ => None,
    }
}

/// What is said of a turn's end, where it did not simply end.
pub open spec fn outcome_note(o: OutcomeV, max_turns: i64) -> Option<Seq<char>> {
    match o {
        OutcomeV::Done => None,
        OutcomeV::Cancelled => Some("\n(interrupted)"@),
        OutcomeV::TurnLimit => Some(
            "\nhotl: stopped after "@ + signed_decimal_of(max_turns as int)
                + " model steps (the max_turns cap).\nRaise it with `[behavior] max_turns` in config.toml or HOTL_MAX_TURNS; `-1` removes the cap entirely."@,
        ),
        OutcomeV::Refused => Some("\nhotl: the model declined this request."@),
        OutcomeV::DoomLoop(p) => Some("\nhotl: stopped — the model kept repeating: "@ + p),
        OutcomeV::ToolFailureBudget(t) => Some(
            "\nhotl: stopped — `"@ + t + "` failed too many times in a row."@,
        ),
        OutcomeV::Error(m) => Some("\nhotl: "@ + m),
    }
}

/// The usage line: the model leads it, where it has a name.
pub open spec fn usage_line(model: Seq<char>, input: u64, output: u64, cache_read: u64) -> Seq<
    char,
> {
    (if model.len() == 0 {
        "["@
    } else {
        "["@ + model + " · "@
    }) + "in "@ + decimal_of(input as nat) + " out "@ + decimal_of(output as nat)
        + " cache-read "@ + decimal_of(cache_read as nat) + "]"@
}

/// How many of the first `n` are completed.
pub open spec fn done_count(v: Seq<bool>, n: nat) -> nat
    decreases n,
{
    if n == 0 {
        0
    } else {
        done_count(v, (n - 1) as nat) + (if v[n - 1] {
            1nat
        } else {
            0nat
        })
    }
}

/// What an event prints in plain mode.
pub open spec fn plain_outs(s: SurfaceV, e: SurfaceEventV) -> Seq<OutV> {
    match e {
        SurfaceEventV::TextDelta(t) => seq![OutV::Print(t)],
        SurfaceEventV::ThinkingDelta => seq![],
        SurfaceEventV::ToolStart(summary) => (if s.saw_text {
            seq![OutV::Print("\n"@)]
        } else {
            seq![]
        }).push(OutV::Note("· "@ + summary)),
        SurfaceEventV::ToolDone(ok) => if ok {
            seq![]
        } else {
            seq![OutV::Note("  (tool error — fed back to the model)"@)]
        },
        SurfaceEventV::ToolDenied => seq![OutV::Note("  (denied)"@)],
        SurfaceEventV::ToolAutoAllowed(name, rule) => seq![
            OutV::Note("  (auto-allowed "@ + name + " by rule: "@ + rule + ")"@),
        ],
        SurfaceEventV::Retrying(attempt, reason) => seq![
            OutV::Note("· retrying ("@ + decimal_of(attempt as nat) + "): "@ + reason),
        ],
        SurfaceEventV::FallbackModel(model) => seq![OutV::Note("· falling back to "@ + model)],
        SurfaceEventV::PromptQueued => seq![
            OutV::Note("(queued — runs after the current turn)"@),
        ],
        SurfaceEventV::Compacted(degraded) => if degraded {
            seq![
                OutV::Note("(context compacted — summary failed, earlier history dropped)"@),
            ]
        } else {
            seq![OutV::Note("(context compacted — earlier history summarized)"@)]
        },
        SurfaceEventV::Ask(summary) => seq![
            OutV::Note("hotl: denied (headless): "@ + summary),
            OutV::Reply(Refusal::DenyAsk),
        ],
        SurfaceEventV::EgressAsk(host) => seq![
            OutV::Note("hotl: egress denied (headless): "@ + host),
            OutV::Reply(Refusal::NoEgressAnswer),
        ],
        SurfaceEventV::Question(header) => seq![
            OutV::Note("hotl: no human available (headless): "@ + header),
            OutV::Reply(Refusal::NoHuman),
        ],
        SurfaceEventV::TurnDone { outcome, input, output, cache_read } => (match outcome_note(
            outcome,
            s.max_turns,
        ) {
            Some(n) => seq![OutV::Note(n)],
            None => seq![],
        }).push(OutV::Note(usage_line(s.model, input, output, cache_read))),
        SurfaceEventV::TodosChanged(v) => seq![
            OutV::Note(
                "· todos: "@ + decimal_of(done_count(v, v.len())) + "/"@ + decimal_of(v.len())
                    + " done"@,
            ),
        ],
        SurfaceEventV::LedgerReport => seq![],
    }
}

/// What an event prints in the stream mode: its frame, after the answer that
/// it may need.
pub open spec fn json_outs(e: SurfaceEventV) -> Seq<OutV> {
    match refusal(e) {
        Some(a) => seq![OutV::Reply(a), OutV::Frame],
        None => seq![OutV::Frame],
    }
}

/// What an event prints and answers.
pub open spec fn event_outs(s: SurfaceV, e: SurfaceEventV) -> Seq<OutV> {
    if s.json {
        json_outs(e)
    } else {
        plain_outs(s, e)
    }
}

/// The surface after an event.
pub open spec fn after_event(s: SurfaceV, e: SurfaceEventV) -> SurfaceV {
    match e {
        SurfaceEventV::TurnDone { .. } => SurfaceV { turn_running: false, ..s },
        SurfaceEventV::TextDelta(_) => SurfaceV { saw_text: s.saw_text || !s.json, ..s },
        SurfaceEventV::ToolStart(_) => SurfaceV { saw_text: s.saw_text && s.json, ..s },
        _ => s,
    }
}

/// The exit code that an event ends the run with.
pub open spec fn event_code(e: SurfaceEventV) -> Option<i32> {
    match e {
        SurfaceEventV::TurnDone { outcome, .. } => Some(code_of(outcome)),
        _ => None,
    }
}

fn one(o: Out) -> (r: Vec<Out>)
    ensures
        outs(r@) == seq![o@],
{
    let mut v: Vec<Out> = Vec::new();
    v.push(o);
    assert(outs(v@) =~= seq![o@]);
    v
}

fn two(a: Out, b: Out) -> (r: Vec<Out>)
    ensures
        outs(r@) == seq![a@, b@],
{
    let mut v: Vec<Out> = Vec::new();
    v.push(a);
    v.push(b);
    assert(outs(v@) =~= seq![a@, b@]);
    v
}

fn nothing() -> (r: Vec<Out>)
    ensures
        outs(r@) == Seq::<OutV>::empty(),
{
    let v: Vec<Out> = Vec::new();
    assert(outs(v@) =~= Seq::<OutV>::empty());
    v
}

fn note(head: &str, tail: &str) -> (r: Out)
    ensures
        r@ == OutV::Note(head@ + tail@),
{
    let mut s = head.to_owned();
    s.append(tail);
    Out::Note(s)
}

fn say_outcome(o: &Outcome, max_turns: i64) -> (r: Option<String>)
    ensures
        match r {
            Some(s) => outcome_note(o@, max_turns) == Some(s@),
            None => outcome_note(o@, max_turns) is None,
        },
{
    match o {
        Outcome::Done => None,
        Outcome::Cancelled => Some("\n(interrupted)".to_owned()),
        Outcome::TurnLimit => {
            let mut s = "\nhotl: stopped after ".to_owned();
            s.append(decimal_signed(max_turns).as_str());
            s.append(
                " model steps (the max_turns cap).\nRaise it with `[behavior] max_turns` in config.toml or HOTL_MAX_TURNS; `-1` removes the cap entirely.",
            );
            Some(s)
        },
        Outcome::Refused => Some("\nhotl: the model declined this request.".to_owned()),
        Outcome::DoomLoop { pattern } => {
            let mut s = "\nhotl: stopped — the model kept repeating: ".to_owned();
            s.append(pattern.as_str());
            Some(s)
        },
        Outcome::ToolFailureBudget { tool } => {
            let mut s = "\nhotl: stopped — `".to_owned();
            s.append(tool.as_str());
            s.append("` failed too many times in a row.");
            Some(s)
        },
        Outcome::Error { message } => {
            let mut s = "\nhotl: ".to_owned();
            s.append(message.as_str());
            Some(s)
        },
    }
}

fn say_usage(model: &str, input: u64, output: u64, cache_read: u64) -> (r: String)
    ensures
        r@ == usage_line(model@, input, output, cache_read),
{
    let mut s = "[".to_owned();
    if !model.is_empty() {
        s.append(model);
        s.append(" · ");
    }
    s.append("in ");
    s.append(decimal(input).as_str());
    s.append(" out ");
    s.append(decimal(output).as_str());
    s.append(" cache-read ");
    s.append(decimal(cache_read).as_str());
    s.append("]");
    s
}

fn count_done(v: &[bool]) -> (r: usize)
    ensures
        r == done_count(v@, v@.len()),
{
    let mut n: usize = 0;
    let mut i: usize = 0;
    while i < v.len()
        invariant
            0 <= i <= v.len(),
            n == done_count(v@, i as nat),
            n <= i,
        decreases v.len() - i,
    {
        if v[i] {
            n = n + 1;
        }
        i = i + 1;
    }
    n
}

impl Surface {
    /// A surface at the start of its one turn.
    pub fn new(json: bool, max_turns: i64, model: String) -> (r: Surface)
        ensures
            r@ == (SurfaceV {
                json,
                turn_running: true,
                saw_text: false,
                interrupt_pending: false,
                max_turns,
                model: model@,
            }),
    {
        Surface {
            json,
            turn_running: true,
            saw_text: false,
            interrupt_pending: false,
            max_turns,
            model,
        }
    }

    fn render_json(&self, event: &SurfaceEvent) -> (r: Vec<Out>)
        ensures
            outs(r@) == json_outs(event@),
    {
        match event {
            SurfaceEvent::Ask { .. } => two(Out::Reply(Refusal::DenyAsk), Out::Frame),
            SurfaceEvent::EgressAsk { .. } => two(
                Out::Reply(Refusal::NoEgressAnswer),
                Out::Frame,
            ),
            SurfaceEvent::Question { .. } => two(Out::Reply(Refusal::NoHuman), Out::Frame),
            _ => one(Out::Frame),
        }
    }

    fn render(&self, event: &SurfaceEvent) -> (r: Vec<Out>)
        ensures
            outs(r@) == plain_outs(self@, event@),
    {
        match event {
            SurfaceEvent::TextDelta(t) => one(Out::Print(t.clone())),
            SurfaceEvent::ThinkingDelta => nothing(),
            SurfaceEvent::ToolStart { summary } => {
                let n = note("· ", summary.as_str());
                if self.saw_text {
                    let ghost nv = n@;
                    let v = two(Out::Print("\n".to_owned()), n);
                    assert(outs(v@) =~= seq![OutV::Print("\n"@)].push(nv));
                    v
                } else {
                    let ghost nv = n@;
                    let v = one(n);
                    assert(outs(v@) =~= Seq::<OutV>::empty().push(nv));
                    v
                }
            },
            SurfaceEvent::ToolDone { ok } => {
                if *ok {
                    nothing()
                } else {
                    one(Out::Note("  (tool error — fed back to the model)".to_owned()))
                }
            },
            SurfaceEvent::ToolDenied => one(Out::Note("  (denied)".to_owned())),
            SurfaceEvent::ToolAutoAllowed { name, rule } => {
                let mut s = "  (auto-allowed ".to_owned();
                s.append(name.as_str());
                s.append(" by rule: ");
                s.append(rule.as_str());
                s.append(")");
                one(Out::Note(s))
            },
            SurfaceEvent::Retrying { attempt, reason } => {
                let mut s = "· retrying (".to_owned();
                s.append(decimal(*attempt).as_str());
                s.append("): ");
                s.append(reason.as_str());
                one(Out::Note(s))
            },
            SurfaceEvent::FallbackModel { model } => one(
                note("· falling back to ", model.as_str()),
            ),
            SurfaceEvent::PromptQueued => one(
                Out::Note("(queued — runs after the current turn)".to_owned()),
            ),
            SurfaceEvent::Compacted { degraded } => {
                if *degraded {
                    one(
                        Out::Note(
                            "(context compacted — summary failed, earlier history dropped)".to_owned(),
                        ),
                    )
                } else {
                    one(Out::Note("(context compacted — earlier history summarized)".to_owned()))
                }
            },
            SurfaceEvent::Ask { summary } => two(
                note("hotl: denied (headless): ", summary.as_str()),
                Out::Reply(Refusal::DenyAsk),
            ),
            SurfaceEvent::EgressAsk { host } => two(
                note("hotl: egress denied (headless): ", host.as_str()),
                Out::Reply(Refusal::NoEgressAnswer),
            ),
            SurfaceEvent::Question { header } => two(
                note("hotl: no human available (headless): ", header.as_str()),
                Out::Reply(Refusal::NoHuman),
            ),
            SurfaceEvent::TurnDone { outcome, input, output, cache_read } => {
                let line = Out::Note(say_usage(self.model.as_str(), *input, *output, *cache_read));
                let ghost lv = line@;
                match say_outcome(outcome, self.max_turns) {
                    Some(s) => {
                        let v = two(Out::Note(s), line);
                        assert(outs(v@) =~= seq![OutV::Note(s@)].push(lv));
                        v
                    },
                    None => {
                        let v = one(line);
                        assert(outs(v@) =~= Seq::<OutV>::empty().push(lv));
                        v
                    },
                }
            },
            SurfaceEvent::TodosChanged { completed } => {
                let mut s = "· todos: ".to_owned();
                s.append(decimal(count_done(completed.as_slice()) as u64).as_str());
                s.append("/");
                s.append(decimal(completed.len() as u64).as_str());
                s.append(" done");
                one(Out::Note(s))
            },
            SurfaceEvent::LedgerReport => nothing(),
        }
    }

    /// What an event prints and answers, and the exit code where it ends the
    /// run.
    pub fn on_event(&mut self, event: &SurfaceEvent) -> (r: (Vec<Out>, Option<i32>))
        ensures
            outs(r.0@) == event_outs(old(self)@, event@),
            r.1 == event_code(event@),
            final(self)@ == after_event(old(self)@, event@),
    {
        let ghost before = self@;
        let out = if self.json {
            self.render_json(event)
        } else {
            self.render(event)
        };
        match event {
            SurfaceEvent::TurnDone { outcome, .. } => {
                self.turn_running = false;
                assert(self@ =~= after_event(before, event@));
                (out, Some(exit_code(outcome)))
            },
            SurfaceEvent::TextDelta(_) => {
                if !self.json {
                    self.saw_text = true;
                }
                assert(self@ =~= after_event(before, event@));
                (out, None)
            },
            SurfaceEvent::ToolStart { .. } => {
                if !self.json {
                    self.saw_text = false;
                }
                assert(self@ =~= after_event(before, event@));
                (out, None)
            },
            _ => (out, None),
        }
    }

    /// What an interrupt says, and the exit code where it ends the run. Where
    /// it does not, the turn is to be interrupted.
    pub fn on_interrupt(&mut self) -> (r: (String, Option<i32>))
        ensures
            old(self)@.interrupt_pending ==> r.0@
                == "\nhotl: force quit — not waiting on the interrupted turn"@ && r.1 == Some(130i32)
                && final(self)@ == old(self)@,
            !old(self)@.interrupt_pending ==> r.0@
                == "\n(interrupting — ctrl-c again force-quits)"@ && r.1 is None && final(self)@
                == (SurfaceV { interrupt_pending: true, ..old(self)@ }),
    {
        match sigint_escalation(self.interrupt_pending) {
            Some(code) => (
                "\nhotl: force quit — not waiting on the interrupted turn".to_owned(),
                Some(code),
            ),
            None => {
                let ghost before = self@;
                self.interrupt_pending = true;
                assert(self@ =~= SurfaceV { interrupt_pending: true, ..before });
                ("\n(interrupting — ctrl-c again force-quits)".to_owned(), None)
            },
        }
    }
}

/// Nobody is there to answer, so whatever asks is refused at once, in both
/// modes, exactly once, and nothing else is answered.
pub proof fn every_ask_is_refused_once(s: SurfaceV, e: SurfaceEventV)
    ensures
        refusal(e) matches Some(a) ==> event_outs(s, e).contains(OutV::Reply(a)),
        forall|i: int|
            0 <= i < event_outs(s, e).len() && (#[trigger] event_outs(s, e)[i]) is Reply
                ==> refusal(e) == Some(event_outs(s, e)[i]->Reply_0),
        forall|i: int, j: int|
            0 <= i < event_outs(s, e).len() && 0 <= j < event_outs(s, e).len() && (
            #[trigger] event_outs(s, e)[i]) is Reply && (#[trigger] event_outs(s, e)[j]) is Reply
                ==> i == j,
{
    let v = event_outs(s, e);
    if refusal(e) is Some {
        assert(v[if s.json {
            0
        } else {
            1
        }] == OutV::Reply(refusal(e)->0));
    }
}

/// An event ends the run exactly where it ends the turn.
pub proof fn the_turn_ends_the_run(s: SurfaceV, e: SurfaceEventV)
    requires
        s.turn_running,
    ensures
        event_code(e) is Some == !after_event(s, e).turn_running,
        (event_code(e) == Some(0i32)) == (e matches SurfaceEventV::TurnDone { outcome, .. }
            && outcome is Done),
{
}

/// In plain mode standard output holds the model's text as it came and, before a
/// tool's line, the end of the line that the text left open; nothing else. In
/// stream mode every event is one frame, the last that it gives.
pub proof fn output_is_the_text_or_the_frames(s: SurfaceV, e: SurfaceEventV)
    ensures
        ({
            let v = event_outs(s, e);
            &&& !s.json ==> {
                &&& forall|i: int|
                    0 <= i < v.len() ==> (#[trigger] v[i]) != OutV::Frame && (v[i] matches OutV::Print(
                        x,
                    ) ==> e == SurfaceEventV::TextDelta(x) || (e is ToolStart && s.saw_text && x
                        == "\n"@))
                &&& e matches SurfaceEventV::TextDelta(t) ==> v == seq![OutV::Print(t)]
                    && after_event(s, e).saw_text
                &&& e matches SurfaceEventV::ToolStart(what) ==> {
                    &&& v.len() == (if s.saw_text {
                        2nat
                    } else {
                        1nat
                    })
                    &&& s.saw_text ==> v[0] == OutV::Print("\n"@)
                    &&& v.last() matches OutV::Note(n) && what.is_suffix_of(n)
                    &&& !after_event(s, e).saw_text
                }
            }
            &&& s.json ==> {
                &&& v.len() > 0 && v.last() == OutV::Frame
                &&& forall|i: int| 0 <= i < v.len() - 1 ==> (#[trigger] v[i]) is Reply
                &&& after_event(s, e).saw_text == s.saw_text
            }
        }),
{
    if let SurfaceEventV::ToolStart(what) = e {
        let n = "· "@ + what;
        assert(n.skip(n.len() - what.len()) =~= what);
    }
}

/// A permission is denied, a connection is left without an answer, and a question
/// is told that nobody is there; a plain surface says before that what it
/// refused.
pub proof fn each_ask_has_its_refusal(s: SurfaceV, what: Seq<char>)
    ensures
        ({
            let ask = event_outs(s, SurfaceEventV::Ask(what));
            let egress = event_outs(s, SurfaceEventV::EgressAsk(what));
            let question = event_outs(s, SurfaceEventV::Question(what));
            let at: int = if s.json {
                0
            } else {
                1
            };
            &&& ask.len() == 2 && egress.len() == 2 && question.len() == 2
            &&& ask[at] == OutV::Reply(Refusal::DenyAsk)
            &&& egress[at] == OutV::Reply(Refusal::NoEgressAnswer)
            &&& question[at] == OutV::Reply(Refusal::NoHuman)
            &&& !s.json ==> (ask[0] matches OutV::Note(n) && what.is_suffix_of(n))
            &&& !s.json ==> (egress[0] matches OutV::Note(n) && what.is_suffix_of(n))
            &&& !s.json ==> (question[0] matches OutV::Note(n) && what.is_suffix_of(n))
        }),
{
    let a = "hotl: denied (headless): "@ + what;
    let b = "hotl: egress denied (headless): "@ + what;
    let c = "hotl: no human available (headless): "@ + what;
    assert(a.skip(a.len() - what.len()) =~= what);
    assert(b.skip(b.len() - what.len()) =~= what);
    assert(c.skip(c.len() - what.len()) =~= what);
}

/// The run's exit code is zero for a turn that ended, 130 for one that was
/// interrupted, and one for any other; no other event ends the run.
pub proof fn exit_codes_tell_how_it_ended(e: SurfaceEventV)
    ensures
        match e {
            SurfaceEventV::TurnDone { outcome, input: _, output: _, cache_read: _ } => event_code(e)
                == Some(
                if outcome is Done {
                    0i32
                } else if outcome is Cancelled {
                    130i32
                } else {
                    1i32
                },
            ),
            _ => event_code(e) is None,
        },
{
}

/// The end of a turn is told last by what it used, and before that, where it did
/// not simply end, by why it stopped: in the engine's own words where it has
/// some, and by the cap where that stopped it.
pub proof fn turn_ends_say_why(
    s: SurfaceV,
    outcome: OutcomeV,
    input: u64,
    output: u64,
    cache_read: u64,
)
    requires
        !s.json,
    ensures
        ({
            let v = event_outs(
                s,
                SurfaceEventV::TurnDone { outcome, input, output, cache_read },
            );
            &&& v.len() == (if outcome is Done {
                1nat
            } else {
                2nat
            })
            &&& v.last() == OutV::Note(
                "["@ + (if s.model.len() == 0 {
                    Seq::empty()
                } else {
                    s.model + " · "@
                }) + "in "@ + decimal_of(input as nat) + " out "@ + decimal_of(output as nat)
                    + " cache-read "@ + decimal_of(cache_read as nat) + "]"@,
            )
            &&& outcome !is Done ==> (v[0] matches OutV::Note(n) && (match outcome {
                OutcomeV::DoomLoop(p) => p.is_suffix_of(n),
                OutcomeV::Error(m) => m.is_suffix_of(n),
                OutcomeV::ToolFailureBudget(t) => crate::text::occurs(n, t),
                OutcomeV::TurnLimit => crate::text::occurs(
                    n,
                    signed_decimal_of(s.max_turns as int),
                ),
                OutcomeV::Cancelled => n == "\n(interrupted)"@,
                _ => n == "\nhotl: the model declined this request."@,
            }))
        }),
{
    let head = "["@;
    let tail = s.model + " · "@;
    assert(head + s.model + " · "@ =~= head + tail);
    assert(head + Seq::<char>::empty() =~= head);
    if let Some(n) = outcome_note(outcome, s.max_turns) {
        match outcome {
            OutcomeV::DoomLoop(p) => {
                assert(n.skip(n.len() - p.len()) =~= p);
            },
            OutcomeV::Error(m) => {
                assert(n.skip(n.len() - m.len()) =~= m);
            },
            OutcomeV::ToolFailureBudget(t) => {
                let k = "\nhotl: stopped — `"@.len() as int;
                assert(n.subrange(k, k + t.len()) =~= t);
                assert(crate::text::occurs_at(n, t, k));
            },
            OutcomeV::TurnLimit => {
                let t = signed_decimal_of(s.max_turns as int);
                let k = "\nhotl: stopped after "@.len() as int;
                assert(n.subrange(k, k + t.len()) =~= t);
                assert(crate::text::occurs_at(n, t, k));
            },
            _ => {},
        }
    }
}

proof fn done_count_filters(v: Seq<bool>, n: nat)
    requires
        n <= v.len(),
    ensures
        done_count(v, n) == v.take(n as int).filter(|b: bool| b).len(),
    decreases n,
{
    reveal(Seq::filter);
    if n > 0 {
        done_count_filters(v, (n - 1) as nat);
        assert(v.take(n as int).drop_last() =~= v.take(n - 1));
        assert(v.take(n as int).last() == v[n - 1]);
    }
}

/// A changed checklist is told by how many of its items are completed and how
/// many there are; the other events that a person can act on are told by what
/// they are about.
pub proof fn notes_tell_what_happened(
    s: SurfaceV,
    completed: Seq<bool>,
    attempt: u64,
    what: Seq<char>,
    rule: Seq<char>,
)
    requires
        !s.json,
    ensures
        event_outs(s, SurfaceEventV::TodosChanged(completed)) == seq![
            OutV::Note(
                "· todos: "@ + decimal_of(completed.filter(|b: bool| b).len()) + "/"@ + decimal_of(
                    completed.len(),
                ) + " done"@,
            ),
        ],
        event_outs(s, SurfaceEventV::FallbackModel(what)) == seq![
            OutV::Note("· falling back to "@ + what),
        ],
        event_outs(s, SurfaceEventV::Retrying(attempt, what)) == seq![
            OutV::Note("· retrying ("@ + decimal_of(attempt as nat) + "): "@ + what),
        ],
        event_outs(s, SurfaceEventV::ToolAutoAllowed(what, rule)) == seq![
            OutV::Note("  (auto-allowed "@ + what + " by rule: "@ + rule + ")"@),
        ],
        event_outs(s, SurfaceEventV::ToolDone(true)).len() == 0,
        event_outs(s, SurfaceEventV::ToolDone(false)).len() == 1,
        event_outs(s, SurfaceEventV::ToolDenied).len() == 1,
        event_outs(s, SurfaceEventV::Compacted(true)) != event_outs(
            s,
            SurfaceEventV::Compacted(false),
        ),
        event_outs(s, SurfaceEventV::ThinkingDelta).len() == 0,
        event_outs(s, SurfaceEventV::LedgerReport).len() == 0,
{
    done_count_filters(completed, completed.len());
    assert(completed.take(completed.len() as int) =~= completed);
    reveal_strlit("(context compacted — summary failed, earlier history dropped)");
    reveal_strlit("(context compacted — earlier history summarized)");
    let a = event_outs(s, SurfaceEventV::Compacted(true));
    let b = event_outs(s, SurfaceEventV::Compacted(false));
    assert(a[0]->Note_0.len() != b[0]->Note_0.len());
}

} // verus!
