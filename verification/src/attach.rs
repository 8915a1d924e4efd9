//! The terminal client of a detached session: what it shows of each frame and
//! what a typed line means.
use crate::json::{
    array_at, bool_at, field, json_text, no_members, nothing_reads, parse_json, put_reads, text_at,
    uint_at, Json, JsonV,
};
use crate::session_server::{hint_text, paste_hint, text_or_empty};
use crate::text::{
    decimal, decimal_of, has_prefix, occurs, occurs_at, opt_text, same, starts_with, texts, trim,
    trimmed,
};
use vstd::prelude::*;
use vstd::string::*;

verus! {

/// The first live session whose id starts with `id`, among those from the
/// `i`-th on.
pub open spec fn first_with_prefix(live: Seq<Seq<char>>, id: Seq<char>) -> Option<Seq<char>>
    decreases live.len(),
{
    if live.len() == 0 {
        None
    } else if has_prefix(live[0], id) {
        Some(live[0])
    } else {
        first_with_prefix(live.drop_first(), id)
    }
}

/// The live session that is meant: the one of that id, else the first whose id
/// starts so.
pub open spec fn session_meant(id: Seq<char>, exact: bool, live: Seq<Seq<char>>) -> Option<
    Seq<char>,
> {
    if exact {
        Some(id)
    } else {
        first_with_prefix(live, id)
    }
}

/// The live session that is meant; `exact` tells that one of that very id is
/// live.
pub fn resolve(id: &str, exact: bool, live: &[String]) -> (r: Option<String>)
    ensures
        opt_text(r) == session_meant(id@, exact, texts(live@)),
{
    if exact {
        return Some(id.to_owned());
    }
    let ghost all = texts(live@);
    let mut i: usize = 0;
    assert(all.skip(0) =~= all);
    while i < live.len()
        invariant
            !exact,
            0 <= i <= live.len(),
            all == texts(live@),
            first_with_prefix(all, id@) == first_with_prefix(all.skip(i as int), id@),
        decreases live.len() - i,
    {
        assert(all.skip(i as int)[0] == live@[i as int]@);
        assert(all.skip(i as int).drop_first() =~= all.skip(i + 1));
        if starts_with(live[i].as_str(), id) {
            return Some(live[i].clone());
        }
        i = i + 1;
    }
    None
}

/// The lines of the first `n` ids, each indented.
pub open spec fn id_lines(live: Seq<Seq<char>>, n: nat) -> Seq<char>
    decreases n,
{
    if n == 0 {
        Seq::empty()
    } else {
        id_lines(live, (n - 1) as nat) + "  "@ + live[n - 1] + "\n"@
    }
}

/// The list of live sessions, as it is printed.
pub fn list_sessions(live: &[String]) -> (r: String)
    ensures
        r@ == (if live@.len() == 0 {
            "no backgrounded sessions. start one with `hotl bg [prompt]`.\n"@
        } else {
            "live backgrounded sessions (attach with `hotl attach <id>`):\n"@ + id_lines(
                texts(live@),
                live@.len(),
            )
        }),
{
    if live.len() == 0 {
        return "no backgrounded sessions. start one with `hotl bg [prompt]`.\n".to_owned();
    }
    let ghost all = texts(live@);
    let ghost head = "live backgrounded sessions (attach with `hotl attach <id>`):\n"@;
    let mut s = "live backgrounded sessions (attach with `hotl attach <id>`):\n".to_owned();
    let mut i: usize = 0;
    assert(head + id_lines(all, 0) =~= head);
    while i < live.len()
        invariant
            0 <= i <= live.len(),
            all == texts(live@),
            s@ == head + id_lines(all, i as nat),
        decreases live.len() - i,
    {
        assert(all[i as int] == live@[i as int]@);
        s.append("  ");
        s.append(live[i].as_str());
        s.append("\n");
        i = i + 1;
        assert(s@ =~= head + id_lines(all, i as nat));
    }
    s
}

/// What is waiting for an answer, and which kind of ask it is.
#[derive(Debug, PartialEq, Eq)]
pub struct Parked {
    pub id: u64,
    /// The host, for an egress ask.
    pub egress: Option<String>,
}

/// The view of a [`Parked`].
#[verifier::ext_equal]
pub struct ParkedV {
    pub id: u64,
    pub egress: Option<Seq<char>>,
}

impl View for Parked {
    type V = ParkedV;

    open spec fn view(&self) -> ParkedV {
        ParkedV { id: self.id, egress: opt_text(self.egress) }
    }
}

impl Clone for Parked {
    fn clone(&self) -> (r: Parked)
        ensures
            r@ == self@,
    {
        let egress = match &self.egress {
            Some(h) => Some(h.clone()),
            None => None,
        };
        Parked { id: self.id, egress }
    }
}

/// The view of an optional ask.
pub open spec fn opt_parked(o: Option<Parked>) -> Option<ParkedV> {
    match o {
        Some(p) => Some(p@),
        None => None,
    }
}

/// What a typed line means.
#[derive(Debug, PartialEq, Eq)]
pub enum Action {
    Stop,
    Nothing,
    AnswerAsk { parked: Parked, allow: bool },
    Steer(String),
    Prompt(String),
}

/// The view of an [`Action`].
#[verifier::ext_equal]
pub enum ActionV {
    Stop,
    Nothing,
    AnswerAsk(ParkedV, bool),
    Steer(Seq<char>),
    Prompt(Seq<char>),
}

impl View for Action {
    type V = ActionV;

    open spec fn view(&self) -> ActionV {
        match *self {
            Action::Stop => ActionV::Stop,
            Action::Nothing => ActionV::Nothing,
            Action::AnswerAsk { parked, allow } => ActionV::AnswerAsk(parked@, allow),
            Action::Steer(s) => ActionV::Steer(s@),
            Action::Prompt(s) => ActionV::Prompt(s@),
        }
    }
}

/// Whether a typed answer agrees.
pub open spec fn agrees(text: Seq<char>) -> bool {
    text == "y"@ || text == "Y"@ || text == "yes"@
}

/// What a typed line means. A waiting ask takes the next line as its answer,
/// and whatever does not agree denies.
pub open spec fn line_meaning(
    text: Seq<char>,
    turn_running: bool,
    pending: Option<ParkedV>,
) -> ActionV {
    if text == "/stop"@ {
        ActionV::Stop
    } else if text.len() == 0 {
        ActionV::Nothing
    } else if pending is Some {
        ActionV::AnswerAsk(pending->0, agrees(text))
    } else if turn_running {
        ActionV::Steer(text)
    } else {
        ActionV::Prompt(text)
    }
}

/// Classifies a typed line.
pub fn route(text: &str, turn_running: bool, pending_ask: Option<&Parked>) -> (r: Action)
    ensures
        r@ == line_meaning(
            text@,
            turn_running,
            match pending_ask {
                Some(p) => Some(p@),
                None => None,
            },
        ),
{
    if same(text, "/stop") {
        return Action::Stop;
    }
    if text.is_empty() {
        return Action::Nothing;
    }
    if let Some(p) = pending_ask {
        let allow = same(text, "y") || same(text, "Y") || same(text, "yes");
        return Action::AnswerAsk { parked: p.clone(), allow };
    }
    if turn_running {
        Action::Steer(text.to_owned())
    } else {
        Action::Prompt(text.to_owned())
    }
}

/// The frame that an action sends; `text` is the action's text with its file
/// references expanded.
pub open spec fn frame_of(a: ActionV, text: Seq<char>) -> Option<JsonV> {
    match a {
        ActionV::Stop => Some(no_members().put("t"@, JsonV::Str("shutdown"@))),
        ActionV::Nothing => None,
        ActionV::AnswerAsk(p, allow) => Some(
            no_members().put(
                "t"@,
                JsonV::Str(
                    if p.egress is Some {
                        "egress_reply"@
                    } else {
                        "ask_reply"@
                    },
                ),
            ).put("id"@, JsonV::Uint(p.id)).put("allow"@, JsonV::Bool(allow)),
        ),
        ActionV::Steer(_) => Some(
            no_members().put("t"@, JsonV::Str("steer"@)).put("text"@, JsonV::Str(text)),
        ),
        ActionV::Prompt(_) => Some(
            no_members().put("t"@, JsonV::Str("prompt"@)).put("text"@, JsonV::Str(text)),
        ),
    }
}

/// The frame that an action sends.
pub fn action_frame(action: &Action, expanded: &str) -> (r: Option<Json>)
    ensures
        match r {
            Some(j) => frame_of(action@, expanded@) == Some(j@),
            None => frame_of(action@, expanded@) is None,
        },
{
    match action {
        Action::Stop => Some(Json::object().with("t", Json::text("shutdown"))),
        Action::Nothing => None,
        Action::AnswerAsk { parked, allow } => {
            let method = if parked.egress.is_some() {
                "egress_reply"
            } else {
                "ask_reply"
            };
            Some(
                Json::object().with("t", Json::text(method)).with(
                    "id",
                    Json::Uint(parked.id),
                ).with("allow", Json::Bool(*allow)),
            )
        },
        Action::Steer(_) => Some(
            Json::object().with("t", Json::text("steer")).with("text", Json::text(expanded)),
        ),
        Action::Prompt(_) => Some(
            Json::object().with("t", Json::text("prompt")).with("text", Json::text(expanded)),
        ),
    }
}

/// What is said after an action: how to make an allowed host permanent.
pub fn action_hint(action: &Action) -> (r: Option<String>)
    ensures
        opt_text(r) == (match action@ {
            ActionV::AnswerAsk(p, true) => match p.egress {
                Some(h) => Some(hint_text(h)),
                None => None,
            },
            _ => None,
        }),
{
    match action {
        Action::AnswerAsk { parked, allow } => {
            if *allow {
                match &parked.egress {
                    Some(h) => Some(paste_hint(h.as_str())),
                    None => None,
                }
            } else {
                None
            }
        },
        _ => None,
    }
}

/// What the client shows.
#[derive(Debug, PartialEq, Eq)]
pub enum Shown {
    /// To standard output, as it is.
    Print(String),
    /// To standard error, as a line.
    Note(String),
    /// To standard error, with the line left open.
    Ask(String),
}

/// The view of a [`Shown`].
#[verifier::ext_equal]
pub enum ShownV {
    Print(Seq<char>),
    Note(Seq<char>),
    Ask(Seq<char>),
}

impl View for Shown {
    type V = ShownV;

    open spec fn view(&self) -> ShownV {
        match *self {
            Shown::Print(s) => ShownV::Print(s@),
            Shown::Note(s) => ShownV::Note(s@),
            Shown::Ask(s) => ShownV::Ask(s@),
        }
    }
}

/// The views of what is shown.
pub open spec fn showing(v: Seq<Shown>) -> Seq<ShownV> {
    Seq::new(v.len(), |i: int| v[i]@)
}

fn show(v: &mut Vec<Shown>, s: Shown)
    ensures
        showing(final(v)@) == showing(old(v)@).push(s@),
{
    let ghost before = showing(v@);
    v.push(s);
    assert(showing(v@) =~= before.push(s@));
}

/// The number under `key`, or zero.
pub open spec fn uint_or_zero(v: JsonV, key: Seq<char>) -> nat {
    match uint_at(v, key) {
        Some(n) => n as nat,
        None => 0,
    }
}

/// The line of a stream update, or nothing for the updates that are no lines:
/// the answer's text, a tool that worked, and what is not known.
pub open spec fn line_of_update(u: JsonV) -> Option<Seq<char>> {
    let kind = text_or_empty(u, "type"@);
    if kind == "text_delta"@ {
        None
    } else if kind == "thinking_delta"@ {
        Some("· thinking: "@ + text_or_empty(u, "text"@))
    } else if kind == "tool_start"@ {
        Some("\n· "@ + text_or_empty(u, "summary"@))
    } else if kind == "tool_done"@ {
        if bool_at(u, "ok"@) == Some(false) {
            Some("  (tool error — fed back to the model)"@)
        } else {
            None
        }
    } else if kind == "tool_denied"@ {
        Some("· denied: "@ + text_or_empty(u, "name"@))
    } else if kind == "tool_auto_allowed"@ {
        Some(
            "· auto-allowed "@ + text_or_empty(u, "name"@) + " (rule: "@ + text_or_empty(
                u,
                "rule"@,
            ) + ")"@,
        )
    } else if kind == "retrying"@ {
        Some(
            "· retrying (attempt "@ + decimal_of(uint_or_zero(u, "attempt"@)) + ") — "@
                + text_or_empty(u, "reason"@),
        )
    } else if kind == "fallback_model"@ {
        Some("· model fallback → "@ + text_or_empty(u, "model"@))
    } else if kind == "prompt_queued"@ {
        Some("· queued"@)
    } else if kind == "compacted"@ {
        if bool_at(u, "degraded"@) == Some(true) {
            Some("(context compacted — degraded)"@)
        } else {
            Some("(context compacted)"@)
        }
    } else if kind == "todos_changed"@ {
        Some(
            "· todos: "@ + decimal_of(
                match array_at(u, "items"@) {
                    Some(a) => a.len(),
                    None => 0,
                },
            ) + " item(s)"@,
        )
    } else if kind == "mode_changed"@ {
        Some("· permission mode → "@ + text_or_empty(u, "mode"@))
    } else {
        None
    }
}

fn text_in<'a>(u: &'a Json, key: &str) -> (r: &'a str)
    ensures
        r@ == text_or_empty(u@, key@),
{
    match u.text_field(key) {
        Some(s) => s,
        None => {
            proof {
                reveal_strlit("");
                assert(""@ =~= Seq::<char>::empty());
            }
            ""
        },
    }
}

fn with_tail(head: &str, tail: &str) -> (r: String)
    ensures
        r@ == head@ + tail@,
{
    let mut s = head.to_owned();
    s.append(tail);
    s
}

/// The line of a stream update, where it has one.
pub fn update_line(update: &Json) -> (r: Option<String>)
    ensures
        opt_text(r) == line_of_update(update@),
{
    let kind = text_in(update, "type");
    if same(kind, "text_delta") {
        None
    } else if same(kind, "thinking_delta") {
        Some(with_tail("· thinking: ", text_in(update, "text")))
    } else if same(kind, "tool_start") {
        Some(with_tail("\n· ", text_in(update, "summary")))
    } else if same(kind, "tool_done") {
        match update.bool_field("ok") {
            Some(false) => Some("  (tool error — fed back to the model)".to_owned()),
            _ => None,
        }
    } else if same(kind, "tool_denied") {
        Some(with_tail("· denied: ", text_in(update, "name")))
    } else if same(kind, "tool_auto_allowed") {
        let mut s = with_tail("· auto-allowed ", text_in(update, "name"));
        s.append(" (rule: ");
        s.append(text_in(update, "rule"));
        s.append(")");
        Some(s)
    } else if same(kind, "retrying") {
        let n: u64 = match update.uint_field("attempt") {
            Some(n) => n,
            None => 0,
        };
        let mut s = with_tail("· retrying (attempt ", decimal(n).as_str());
        s.append(") — ");
        s.append(text_in(update, "reason"));
        Some(s)
    } else if same(kind, "fallback_model") {
        Some(with_tail("· model fallback → ", text_in(update, "model")))
    } else if same(kind, "prompt_queued") {
        Some("· queued".to_owned())
    } else if same(kind, "compacted") {
        match update.bool_field("degraded") {
            Some(true) => Some("(context compacted — degraded)".to_owned()),
            _ => Some("(context compacted)".to_owned()),
        }
    } else if same(kind, "todos_changed") {
        let n: usize = match update.array_field("items") {
            Some(a) => a.len(),
            None => 0,
        };
        let mut s = with_tail("· todos: ", decimal(n as u64).as_str());
        s.append(" item(s)");
        Some(s)
    } else if same(kind, "mode_changed") {
        Some(with_tail("· permission mode → ", text_in(update, "mode")))
    } else {
        None
    }
}

/// What a stream update shows.
pub open spec fn update_shown(u: JsonV) -> Seq<ShownV> {
    if text_at(u, "type"@) == Some("text_delta"@) {
        seq![ShownV::Print(text_or_empty(u, "text"@))]
    } else {
        match line_of_update(u) {
            Some(s) => seq![ShownV::Note(s)],
            None => seq![],
        }
    }
}

/// The text under `key`, or a question mark.
pub open spec fn text_or_unknown(v: JsonV, key: Seq<char>) -> Seq<char> {
    match text_at(v, key) {
        Some(s) => s,
        None => "?"@,
    }
}

fn text_or_mark<'a>(v: &'a Json, key: &str) -> (r: &'a str)
    ensures
        r@ == text_or_unknown(v@, key@),
{
    match v.text_field(key) {
        Some(s) => s,
        None => "?",
    }
}

/// How a turn ended, as its frame says; a frame that does not say means that
/// it was done.
pub open spec fn turn_kind(msg: JsonV) -> Seq<char> {
    match field(msg, "outcome"@) {
        Some(o) => match text_at(o, "kind"@) {
            Some(k) => k,
            None => "done"@,
        },
        None => "done"@,
    }
}

/// The client's state: what waits for an answer, and whether a turn runs.
#[derive(Debug)]
pub struct Client {
    pub pending: Option<Parked>,
    pub turn_running: bool,
}

/// The view of a [`Client`].
#[verifier::ext_equal]
pub struct ClientV {
    pub pending: Option<ParkedV>,
    pub turn_running: bool,
}

impl View for Client {
    type V = ClientV;

    open spec fn view(&self) -> ClientV {
        ClientV { pending: opt_parked(self.pending), turn_running: self.turn_running }
    }
}

/// What a frame shows.
pub open spec fn frame_shown(msg: JsonV) -> Seq<ShownV> {
    let t = text_or_empty(msg, "t"@);
    if t == "ask"@ {
        if uint_at(msg, "id"@) is Some {
            (match text_at(msg, "protectedWhy"@) {
                Some(why) => seq![ShownV::Note("⚠ PROTECTED PATH — "@ + why)],
                None => seq![],
            }).push(ShownV::Ask("allow "@ + text_or_unknown(msg, "summary"@) + "? [y/N] "@))
        } else {
            seq![]
        }
    } else if t == "egress"@ {
        if uint_at(msg, "id"@) is Some {
            seq![
                ShownV::Note(
                    "\nnetwork: reaching \""@ + text_or_unknown(msg, "host"@)
                        + "\" was not in the approved command"@,
                ),
                ShownV::Note("this host is not in [network].allow"@),
                ShownV::Ask("allow for this session? [y/N] "@),
            ]
        } else {
            seq![]
        }
    } else if t == "update"@ {
        update_shown(
            match field(msg, "update"@) {
                Some(u) => u,
                None => JsonV::Null,
            },
        )
    } else if t == "turn_done"@ {
        (if turn_kind(msg) == "done"@ {
            seq![]
        } else {
            seq![ShownV::Note("\n[turn ended: "@ + turn_kind(msg) + "]"@)]
        }).push(ShownV::Ask("\n❯ "@))
    } else {
        seq![]
    }
}

/// The client after a frame.
pub open spec fn after_frame(c: ClientV, msg: JsonV) -> ClientV {
    let t = text_or_empty(msg, "t"@);
    if t == "ask"@ {
        ClientV {
            pending: match uint_at(msg, "id"@) {
                Some(id) => Some(ParkedV { id, egress: None }),
                None => c.pending,
            },
            turn_running: true,
        }
    } else if t == "egress"@ {
        ClientV {
            pending: match uint_at(msg, "id"@) {
                Some(id) => Some(ParkedV { id, egress: Some(text_or_unknown(msg, "host"@)) }),
                None => c.pending,
            },
            turn_running: true,
        }
    } else if t == "update"@ {
        ClientV { turn_running: true, ..c }
    } else if t == "turn_done"@ {
        ClientV { turn_running: false, ..c }
    } else {
        c
    }
}

/// The client after a typed line.
pub open spec fn after_line(c: ClientV, a: ActionV) -> ClientV {
    match a {
        ActionV::AnswerAsk(_, _) => ClientV { pending: None, ..c },
        ActionV::Prompt(_) => ClientV { turn_running: true, ..c },
        _ => c,
    }
}

fn show_update(update: &Json) -> (r: Vec<Shown>)
    ensures
        showing(r@) == update_shown(update@),
{
    let mut v: Vec<Shown> = Vec::new();
    assert(showing(v@) =~= seq![]);
    let streamed = match update.text_field("type") {
        Some(k) => same(k, "text_delta"),
        None => false,
    };
    if streamed {
        show(&mut v, Shown::Print(text_in(update, "text").to_owned()));
        assert(showing(v@) =~= seq![ShownV::Print(text_or_empty(update@, "text"@))]);
        return v;
    }
    if let Some(line) = update_line(update) {
        show(&mut v, Shown::Note(line));
        assert(showing(v@) =~= seq![ShownV::Note(line@)]);
    }
    v
}

impl Client {
    /// A client that has just attached.
    pub fn new() -> (r: Client)
        ensures
            r@ == (ClientV { pending: None, turn_running: false }),
    {
        Client { pending: None, turn_running: false }
    }

    fn on_ask(&mut self, msg: &Json) -> (r: Vec<Shown>)
        requires
            text_or_empty(msg@, "t"@) == "ask"@,
        ensures
            showing(r@) == frame_shown(msg@),
            final(self)@ == after_frame(old(self)@, msg@),
    {
        let ghost before = self@;
        let mut v: Vec<Shown> = Vec::new();
        assert(showing(v@) =~= seq![]);
        self.turn_running = true;
        if let Some(id) = msg.uint_field("id") {
            if let Some(why) = msg.text_field("protectedWhy") {
                show(&mut v, Shown::Note(with_tail("⚠ PROTECTED PATH — ", why)));
                assert(showing(v@) =~= seq![ShownV::Note("⚠ PROTECTED PATH — "@ + why@)]);
            }
            let mut s = with_tail("allow ", text_or_mark(msg, "summary"));
            s.append("? [y/N] ");
            show(&mut v, Shown::Ask(s));
            self.pending = Some(Parked { id, egress: None });
        }
        assert(self@ =~= after_frame(before, msg@));
        v
    }

    fn on_egress(&mut self, msg: &Json) -> (r: Vec<Shown>)
        requires
            text_or_empty(msg@, "t"@) == "egress"@,
        ensures
            showing(r@) == frame_shown(msg@),
            final(self)@ == after_frame(old(self)@, msg@),
    {
        let ghost before = self@;
        proof {
            reveal_strlit("ask");
            reveal_strlit("egress");
            assert("ask"@.len() != "egress"@.len());
        }
        let mut v: Vec<Shown> = Vec::new();
        assert(showing(v@) =~= seq![]);
        self.turn_running = true;
        if let Some(id) = msg.uint_field("id") {
            let host = text_or_mark(msg, "host");
            let mut s = with_tail("\nnetwork: reaching \"", host);
            s.append("\" was not in the approved command");
            show(&mut v, Shown::Note(s));
            show(&mut v, Shown::Note("this host is not in [network].allow".to_owned()));
            show(&mut v, Shown::Ask("allow for this session? [y/N] ".to_owned()));
            self.pending = Some(Parked { id, egress: Some(host.to_owned()) });
            assert(showing(v@) =~= frame_shown(msg@));
        }
        assert(self@ =~= after_frame(before, msg@));
        v
    }

    fn on_turn_done(&mut self, msg: &Json) -> (r: Vec<Shown>)
        requires
            text_or_empty(msg@, "t"@) == "turn_done"@,
        ensures
            showing(r@) == frame_shown(msg@),
            final(self)@ == after_frame(old(self)@, msg@),
    {
        let ghost before = self@;
        proof {
            reveal_strlit("ask");
            reveal_strlit("egress");
            reveal_strlit("update");
            reveal_strlit("turn_done");
            assert("turn_done"@.len() == 9);
        }
        let mut v: Vec<Shown> = Vec::new();
        assert(showing(v@) =~= seq![]);
        self.turn_running = false;
        let kind: &str = match msg.get("outcome") {
            Some(o) => match o.text_field("kind") {
                Some(k) => k,
                None => "done",
            },
            None => "done",
        };
        if !same(kind, "done") {
            let mut s = with_tail("\n[turn ended: ", kind);
            s.append("]");
            show(&mut v, Shown::Note(s));
            assert(showing(v@) =~= seq![ShownV::Note("\n[turn ended: "@ + kind@ + "]"@)]);
        }
        show(&mut v, Shown::Ask("\n❯ ".to_owned()));
        assert(self@ =~= after_frame(before, msg@));
        v
    }

    /// What a frame of the session shows, and what it changes.
    pub fn on_frame(&mut self, msg: &Json) -> (r: Vec<Shown>)
        ensures
            showing(r@) == frame_shown(msg@),
            final(self)@ == after_frame(old(self)@, msg@),
    {
        let ghost before = self@;
        let t = text_in(msg, "t");
        if same(t, "ask") {
            self.on_ask(msg)
        } else if same(t, "egress") {
            self.on_egress(msg)
        } else if same(t, "update") {
            self.turn_running = true;
            assert(self@ =~= after_frame(before, msg@));
            match msg.get("update") {
                Some(u) => show_update(u),
                None => show_update(&Json::Null),
            }
        } else if same(t, "turn_done") {
            self.on_turn_done(msg)
        } else {
            let v: Vec<Shown> = Vec::new();
            assert(showing(v@) =~= seq![]);
            v
        }
    }

    /// What a line of the session shows; one that is no JSON shows nothing.
    pub fn on_server_line(&mut self, line: &str) -> (r: Vec<Shown>)
        ensures
            match json_text(line@) {
                Some(msg) => showing(r@) == frame_shown(msg) && final(self)@ == after_frame(
                    old(self)@,
                    msg,
                ),
                None => r@.len() == 0 && final(self)@ == old(self)@,
            },
    {
        match parse_json(line) {
            Some(msg) => self.on_frame(&msg),
            None => Vec::new(),
        }
    }

    /// What a typed line means, and what it changes.
    pub fn on_line(&mut self, line: &str) -> (r: Action)
        ensures
            r@ == line_meaning(trimmed(line@), old(self)@.turn_running, old(self)@.pending),
            final(self)@ == after_line(old(self)@, r@),
    {
        let ghost before = self@;
        let pending: Option<&Parked> = match &self.pending {
            Some(p) => Some(p),
            None => None,
        };
        let action = route(trim(line), self.turn_running, pending);
        match &action {
            Action::AnswerAsk { .. } => {
                self.pending = None;
            },
            Action::Prompt(_) => {
                self.turn_running = true;
            },
            _ => {},
        }
        assert(self@ =~= after_line(before, action@));
        action
    }
}

/// Only a line that agrees grants what waits: every other one denies it, and
/// without anything waiting no line answers anything.
pub proof fn only_agreement_grants(c: ClientV, line: Seq<char>)
    ensures
        line_meaning(line, c.turn_running, c.pending) matches ActionV::AnswerAsk(p, allow)
            ==> c.pending == Some(p) && allow == agrees(line),
{
}

/// An ask is answered at most once: answering it leaves nothing waiting.
pub proof fn answers_clear_the_ask(c: ClientV, line: Seq<char>)
    ensures
        ({
            let a = line_meaning(line, c.turn_running, c.pending);
            a is AnswerAsk ==> after_line(c, a).pending is None
        }),
{
}

/// Every update that tells something of the run shows a line: only the
/// answer's text and a tool that worked show none.
pub proof fn known_updates_are_shown(u: JsonV, kind: Seq<char>)
    requires
        text_at(u, "type"@) == Some(kind),
        kind == "thinking_delta"@ || kind == "tool_start"@ || kind == "tool_denied"@ || kind
            == "tool_auto_allowed"@ || kind == "retrying"@ || kind == "fallback_model"@ || kind
            == "prompt_queued"@ || kind == "compacted"@ || kind == "todos_changed"@ || kind
            == "mode_changed"@ || (kind == "tool_done"@ && bool_at(u, "ok"@) == Some(false)),
    ensures
        line_of_update(u) is Some,
{
    reveal_strlit("text_delta");
    reveal_strlit("thinking_delta");
    reveal_strlit("tool_start");
    reveal_strlit("tool_done");
    reveal_strlit("tool_denied");
    reveal_strlit("tool_auto_allowed");
    reveal_strlit("retrying");
    reveal_strlit("fallback_model");
    reveal_strlit("prompt_queued");
    reveal_strlit("compacted");
    reveal_strlit("todos_changed");
    reveal_strlit("mode_changed");
    let streamed = "text_delta"@;
    let worked = "tool_done"@;
    assert(streamed.len() == 10 && streamed[1] == 'e');
    assert(worked.len() == 9 && worked[0] == 't');
    assert(kind.len() == 10 ==> kind[1] == 'o');
    assert(kind != streamed);
    assert("compacted"@[0] == 'c');
    assert(kind == worked ==> bool_at(u, "ok"@) == Some(false));
}

proof fn frame_words_differ()
    ensures
        "t"@ != "id"@,
        "t"@ != "allow"@,
        "id"@ != "allow"@,
        "t"@ != "text"@,
        "ask"@ != "egress"@,
        "ask"@ != "update"@,
        "ask"@ != "turn_done"@,
        "egress"@ != "update"@,
        "egress"@ != "turn_done"@,
        "update"@ != "turn_done"@,
        "y"@ != "/stop"@,
        "Y"@ != "/stop"@,
        "yes"@ != "/stop"@,
{
    reveal_strlit("t");
    reveal_strlit("id");
    reveal_strlit("allow");
    reveal_strlit("text");
    reveal_strlit("ask");
    reveal_strlit("egress");
    reveal_strlit("update");
    reveal_strlit("turn_done");
    reveal_strlit("y");
    reveal_strlit("/stop");
    reveal_strlit("Y");
    reveal_strlit("yes");
    assert("t"@.len() != "id"@.len());
    assert("t"@.len() != "allow"@.len());
    assert("id"@.len() != "allow"@.len());
    assert("t"@.len() != "text"@.len());
    assert("ask"@.len() != "egress"@.len());
    assert("ask"@.len() != "update"@.len());
    assert("ask"@.len() != "turn_done"@.len());
    assert("egress"@[0] != "update"@[0]);
    assert("egress"@.len() != "turn_done"@.len());
    assert("update"@.len() != "turn_done"@.len());
    assert("y"@.len() != "/stop"@.len());
    assert("Y"@.len() != "/stop"@.len());
    assert("yes"@.len() != "/stop"@.len());
}

proof fn update_kinds_differ()
    ensures
        "text_delta"@ != "thinking_delta"@,
        "text_delta"@ != "tool_start"@,
        "text_delta"@ != "tool_done"@,
        "text_delta"@ != "tool_denied"@,
        "text_delta"@ != "tool_auto_allowed"@,
        "text_delta"@ != "retrying"@,
        "text_delta"@ != "fallback_model"@,
        "text_delta"@ != "prompt_queued"@,
        "text_delta"@ != "compacted"@,
        "text_delta"@ != "todos_changed"@,
        "text_delta"@ != "mode_changed"@,
        "thinking_delta"@ != "tool_start"@,
        "thinking_delta"@ != "tool_done"@,
        "thinking_delta"@ != "tool_denied"@,
        "thinking_delta"@ != "tool_auto_allowed"@,
        "thinking_delta"@ != "retrying"@,
        "thinking_delta"@ != "fallback_model"@,
        "thinking_delta"@ != "prompt_queued"@,
        "thinking_delta"@ != "compacted"@,
        "thinking_delta"@ != "todos_changed"@,
        "thinking_delta"@ != "mode_changed"@,
        "tool_start"@ != "tool_done"@,
        "tool_start"@ != "tool_denied"@,
        "tool_start"@ != "tool_auto_allowed"@,
        "tool_start"@ != "retrying"@,
        "tool_start"@ != "fallback_model"@,
        "tool_start"@ != "prompt_queued"@,
        "tool_start"@ != "compacted"@,
        "tool_start"@ != "todos_changed"@,
        "tool_start"@ != "mode_changed"@,
        "tool_done"@ != "tool_denied"@,
        "tool_done"@ != "tool_auto_allowed"@,
        "tool_done"@ != "retrying"@,
        "tool_done"@ != "fallback_model"@,
        "tool_done"@ != "prompt_queued"@,
        "tool_done"@ != "compacted"@,
        "tool_done"@ != "todos_changed"@,
        "tool_done"@ != "mode_changed"@,
        "tool_denied"@ != "tool_auto_allowed"@,
        "tool_denied"@ != "retrying"@,
        "tool_denied"@ != "fallback_model"@,
        "tool_denied"@ != "prompt_queued"@,
        "tool_denied"@ != "compacted"@,
        "tool_denied"@ != "todos_changed"@,
        "tool_denied"@ != "mode_changed"@,
        "tool_auto_allowed"@ != "retrying"@,
        "tool_auto_allowed"@ != "fallback_model"@,
        "tool_auto_allowed"@ != "prompt_queued"@,
        "tool_auto_allowed"@ != "compacted"@,
        "tool_auto_allowed"@ != "todos_changed"@,
        "tool_auto_allowed"@ != "mode_changed"@,
        "retrying"@ != "fallback_model"@,
        "retrying"@ != "prompt_queued"@,
        "retrying"@ != "compacted"@,
        "retrying"@ != "todos_changed"@,
        "retrying"@ != "mode_changed"@,
        "fallback_model"@ != "prompt_queued"@,
        "fallback_model"@ != "compacted"@,
        "fallback_model"@ != "todos_changed"@,
        "fallback_model"@ != "mode_changed"@,
        "prompt_queued"@ != "compacted"@,
        "prompt_queued"@ != "todos_changed"@,
        "prompt_queued"@ != "mode_changed"@,
        "compacted"@ != "todos_changed"@,
        "compacted"@ != "mode_changed"@,
        "todos_changed"@ != "mode_changed"@,
{
    reveal_strlit("text_delta");
    reveal_strlit("thinking_delta");
    reveal_strlit("tool_start");
    reveal_strlit("tool_done");
    reveal_strlit("tool_denied");
    reveal_strlit("tool_auto_allowed");
    reveal_strlit("retrying");
    reveal_strlit("fallback_model");
    reveal_strlit("prompt_queued");
    reveal_strlit("compacted");
    reveal_strlit("todos_changed");
    reveal_strlit("mode_changed");
    assert("text_delta"@.len() != "thinking_delta"@.len());
    assert("text_delta"@[1] != "tool_start"@[1]);
    assert("text_delta"@.len() != "tool_done"@.len());
    assert("text_delta"@.len() != "tool_denied"@.len());
    assert("text_delta"@.len() != "tool_auto_allowed"@.len());
    assert("text_delta"@.len() != "retrying"@.len());
    assert("text_delta"@.len() != "fallback_model"@.len());
    assert("text_delta"@.len() != "prompt_queued"@.len());
    assert("text_delta"@.len() != "compacted"@.len());
    assert("text_delta"@.len() != "todos_changed"@.len());
    assert("text_delta"@.len() != "mode_changed"@.len());
    assert("thinking_delta"@.len() != "tool_start"@.len());
    assert("thinking_delta"@.len() != "tool_done"@.len());
    assert("thinking_delta"@.len() != "tool_denied"@.len());
    assert("thinking_delta"@.len() != "tool_auto_allowed"@.len());
    assert("thinking_delta"@.len() != "retrying"@.len());
    assert("thinking_delta"@[0] != "fallback_model"@[0]);
    assert("thinking_delta"@.len() != "prompt_queued"@.len());
    assert("thinking_delta"@.len() != "compacted"@.len());
    assert("thinking_delta"@.len() != "todos_changed"@.len());
    assert("thinking_delta"@.len() != "mode_changed"@.len());
    assert("tool_start"@.len() != "tool_done"@.len());
    assert("tool_start"@.len() != "tool_denied"@.len());
    assert("tool_start"@.len() != "tool_auto_allowed"@.len());
    assert("tool_start"@.len() != "retrying"@.len());
    assert("tool_start"@.len() != "fallback_model"@.len());
    assert("tool_start"@.len() != "prompt_queued"@.len());
    assert("tool_start"@.len() != "compacted"@.len());
    assert("tool_start"@.len() != "todos_changed"@.len());
    assert("tool_start"@.len() != "mode_changed"@.len());
    assert("tool_done"@.len() != "tool_denied"@.len());
    assert("tool_done"@.len() != "tool_auto_allowed"@.len());
    assert("tool_done"@.len() != "retrying"@.len());
    assert("tool_done"@.len() != "fallback_model"@.len());
    assert("tool_done"@.len() != "prompt_queued"@.len());
    assert("tool_done"@[0] != "compacted"@[0]);
    assert("tool_done"@.len() != "todos_changed"@.len());
    assert("tool_done"@.len() != "mode_changed"@.len());
    assert("tool_denied"@.len() != "tool_auto_allowed"@.len());
    assert("tool_denied"@.len() != "retrying"@.len());
    assert("tool_denied"@.len() != "fallback_model"@.len());
    assert("tool_denied"@.len() != "prompt_queued"@.len());
    assert("tool_denied"@.len() != "compacted"@.len());
    assert("tool_denied"@.len() != "todos_changed"@.len());
    assert("tool_denied"@.len() != "mode_changed"@.len());
    assert("tool_auto_allowed"@.len() != "retrying"@.len());
    assert("tool_auto_allowed"@.len() != "fallback_model"@.len());
    assert("tool_auto_allowed"@.len() != "prompt_queued"@.len());
    assert("tool_auto_allowed"@.len() != "compacted"@.len());
    assert("tool_auto_allowed"@.len() != "todos_changed"@.len());
    assert("tool_auto_allowed"@.len() != "mode_changed"@.len());
    assert("retrying"@.len() != "fallback_model"@.len());
    assert("retrying"@.len() != "prompt_queued"@.len());
    assert("retrying"@.len() != "compacted"@.len());
    assert("retrying"@.len() != "todos_changed"@.len());
    assert("retrying"@.len() != "mode_changed"@.len());
    assert("fallback_model"@.len() != "prompt_queued"@.len());
    assert("fallback_model"@.len() != "compacted"@.len());
    assert("fallback_model"@.len() != "todos_changed"@.len());
    assert("fallback_model"@.len() != "mode_changed"@.len());
    assert("prompt_queued"@.len() != "compacted"@.len());
    assert("prompt_queued"@[0] != "todos_changed"@[0]);
    assert("prompt_queued"@.len() != "mode_changed"@.len());
    assert("compacted"@.len() != "todos_changed"@.len());
    assert("compacted"@.len() != "mode_changed"@.len());
    assert("todos_changed"@.len() != "mode_changed"@.len());
}

/// A reference means the live session of that very id, else the first one listed
/// whose id starts so, and none only where there is none.
pub proof fn references_mean_the_first_that_fits(id: Seq<char>, live: Seq<Seq<char>>)
    ensures
        session_meant(id, true, live) == Some(id),
        match session_meant(id, false, live) {
            Some(x) => exists|i: int|
                0 <= i < live.len() && #[trigger] live[i] == x && id.is_prefix_of(live[i]) && (
                forall|k: int| 0 <= k < i ==> !id.is_prefix_of(#[trigger] live[k])),
            None => forall|k: int| 0 <= k < live.len() ==> !id.is_prefix_of(#[trigger] live[k]),
        },
    decreases live.len(),
{
    if live.len() > 0 {
        let t = live.drop_first();
        references_mean_the_first_that_fits(id, t);
        assert(has_prefix(live[0], id) == id.is_prefix_of(live[0])) by {
            if has_prefix(live[0], id) {
                assert(id =~= live[0].take(id.len() as int));
            }
        }
        if !has_prefix(live[0], id) {
            match session_meant(id, false, t) {
                Some(x) => {
                    let i = choose|i: int|
                        0 <= i < t.len() && #[trigger] t[i] == x && id.is_prefix_of(t[i]) && (forall|
                            k: int,
                        |
                            0 <= k < i ==> !id.is_prefix_of(#[trigger] t[k]));
                    assert(live[i + 1] == x);
                    assert forall|k: int| 0 <= k < i + 1 implies !id.is_prefix_of(
                        #[trigger] live[k],
                    ) by {
                        if k > 0 {
                            assert(t[k - 1] == live[k]);
                        }
                    }
                },
                None => {
                    assert forall|k: int| 0 <= k < live.len() implies !id.is_prefix_of(
                        #[trigger] live[k],
                    ) by {
                        if k > 0 {
                            assert(t[k - 1] == live[k]);
                        }
                    }
                },
            }
        } else {
            assert(live[0] == session_meant(id, false, live)->0);
        }
    }
}

/// The list of live sessions holds a line for every one of them.
pub proof fn lists_hold_every_session(live: Seq<Seq<char>>, n: nat, i: int)
    requires
        0 <= i < n <= live.len(),
    ensures
        occurs(id_lines(live, n), "  "@ + live[i] + "\n"@),
    decreases n,
{
    let all = id_lines(live, n);
    let before = id_lines(live, (n - 1) as nat);
    let line = "  "@ + live[i] + "\n"@;
    if i == n - 1 {
        let k = before.len() as int;
        assert(all.subrange(k, k + line.len()) =~= line);
        assert(occurs_at(all, line, k));
    } else {
        lists_hold_every_session(live, (n - 1) as nat, i);
        let k = choose|k: int| occurs_at(before, line, k);
        assert(all.subrange(k, k + line.len()) =~= before.subrange(k, k + line.len()));
        assert(occurs_at(all, line, k));
    }
}

/// A typed line stops the session where it says so, whatever waits; an empty one
/// does nothing. What waits takes any other line as its answer, and only `y`, `Y`
/// and `yes` allow it. Without anything waiting the line goes to the turn that
/// runs, or starts one.
pub proof fn lines_mean_what_is_typed(text: Seq<char>, running: bool, pending: Option<ParkedV>)
    ensures
        ({
            let a = line_meaning(text, running, pending);
            &&& text == "/stop"@ ==> a == ActionV::Stop
            &&& text.len() == 0 ==> a == ActionV::Nothing
            &&& text.len() > 0 && text != "/stop"@ ==> {
                &&& pending matches Some(p) ==> a == ActionV::AnswerAsk(
                    p,
                    text == "y"@ || text == "Y"@ || text == "yes"@,
                )
                &&& pending is None && running ==> a == ActionV::Steer(text)
                &&& pending is None && !running ==> a == ActionV::Prompt(text)
            }
        }),
{
    reveal_strlit("/stop");
}

/// What the client sends says what was decided: the answer names the ask by its
/// id, in the frame of its kind, with the decision; a text goes as it was
/// expanded.
pub proof fn sent_frames_say_what_was_decided(p: ParkedV, allow: bool, typed: Seq<char>, text: Seq<char>)
    ensures
        frame_of(ActionV::AnswerAsk(p, allow), text) matches Some(f) && uint_at(f, "id"@) == Some(
            p.id,
        ) && bool_at(f, "allow"@) == Some(allow) && text_at(f, "t"@) == Some(
            if p.egress is Some {
                "egress_reply"@
            } else {
                "ask_reply"@
            },
        ),
        frame_of(ActionV::Steer(typed), text) matches Some(f) && text_at(f, "t"@) == Some("steer"@)
            && text_at(f, "text"@) == Some(text),
        frame_of(ActionV::Prompt(typed), text) matches Some(f) && text_at(f, "t"@) == Some(
            "prompt"@,
        ) && text_at(f, "text"@) == Some(text),
        frame_of(ActionV::Stop, text) matches Some(f) && text_at(f, "t"@) == Some("shutdown"@),
        frame_of(ActionV::Nothing, text) is None,
{
    broadcast use {put_reads, nothing_reads};

    frame_words_differ();
}

/// A permission that is asked for waits under its id, and the person is asked
/// last, for what it is; a protected path is pointed out before that. A host that
/// is asked for waits under its id and by its name.
pub proof fn asks_wait_and_are_shown(c: ClientV, msg: JsonV, id: u64, what: Seq<char>)
    requires
        uint_at(msg, "id"@) == Some(id),
    ensures
        text_at(msg, "t"@) == Some("ask"@) && text_at(msg, "summary"@) == Some(what) ==> {
            let v = frame_shown(msg);
            &&& after_frame(c, msg) == (ClientV {
                pending: Some(ParkedV { id, egress: None }),
                turn_running: true,
            })
            &&& v.last() == ShownV::Ask("allow "@ + what + "? [y/N] "@)
            &&& v.len() == (if text_at(msg, "protectedWhy"@) is Some {
                2nat
            } else {
                1nat
            })
            &&& text_at(msg, "protectedWhy"@) matches Some(why) ==> (v[0] matches ShownV::Note(n)
                && why.is_suffix_of(n))
        },
        text_at(msg, "t"@) == Some("egress"@) && text_at(msg, "host"@) == Some(what) ==> {
            let v = frame_shown(msg);
            &&& after_frame(c, msg) == (ClientV {
                pending: Some(ParkedV { id, egress: Some(what) }),
                turn_running: true,
            })
            &&& v.len() == 3
            &&& v[0] matches ShownV::Note(n) && occurs(n, what)
            &&& v[2] is Ask
        },
{
    frame_words_differ();
    if let Some(why) = text_at(msg, "protectedWhy"@) {
        let n = "⚠ PROTECTED PATH — "@ + why;
        assert(n.skip(n.len() - why.len()) =~= why);
    }
    let n = "\nnetwork: reaching \""@ + what + "\" was not in the approved command"@;
    let k = "\nnetwork: reaching \""@.len() as int;
    assert(n.subrange(k, k + what.len()) =~= what);
    assert(occurs_at(n, what, k));
}

/// The model's text is printed as it came, and nothing else is printed; an
/// update shows that a turn runs, the end of a turn that none does, and the
/// prompt comes back with it. What waits for an answer is left to wait.
pub proof fn updates_and_turn_ends_are_shown(c: ClientV, msg: JsonV, update: JsonV, text: Seq<char>)
    ensures
        text_at(msg, "t"@) == Some("update"@) && field(msg, "update"@) == Some(update) ==> {
            let v = frame_shown(msg);
            &&& after_frame(c, msg) == (ClientV { turn_running: true, ..c })
            &&& text_at(update, "type"@) == Some("text_delta"@) && text_at(update, "text"@) == Some(
                text,
            ) ==> v == seq![ShownV::Print(text)]
            &&& text_at(update, "type"@) != Some("text_delta"@) ==> v.len() <= 1 && (v.len() == 1
                ==> v[0] is Note)
        },
        text_at(msg, "t"@) == Some("turn_done"@) ==> {
            let v = frame_shown(msg);
            let said = match field(msg, "outcome"@) {
                Some(o) => text_at(o, "kind"@),
                None => None,
            };
            &&& after_frame(c, msg) == (ClientV { turn_running: false, ..c })
            &&& v.last() is Ask
            &&& said is None || said == Some("done"@) ==> v.len() == 1
            &&& said is Some && said != Some("done"@) ==> v.len() == 2 && (v[0] matches ShownV::Note(
                n,
            ) && occurs(n, said->0))
        },
{
    frame_words_differ();
    let kind = turn_kind(msg);
    let n = "\n[turn ended: "@ + kind + "]"@;
    let k = "\n[turn ended: "@.len() as int;
    assert(n.subrange(k, k + kind.len()) =~= kind);
    assert(occurs_at(n, kind, k));
}

/// The line of an update tells what it is about: the thought, the tool, the rule,
/// the reason, the model or the mode that it names.
pub proof fn update_lines_tell_what_they_are_about(u: JsonV, what: Seq<char>)
    ensures
        ({
            let kind = text_at(u, "type"@);
            let line = line_of_update(u);
            &&& kind == Some("thinking_delta"@) && text_at(u, "text"@) == Some(what) ==> line
                == Some("· thinking: "@ + what)
            &&& kind == Some("tool_start"@) && text_at(u, "summary"@) == Some(what) ==> line
                == Some("\n· "@ + what)
            &&& kind == Some("tool_denied"@) && text_at(u, "name"@) == Some(what) ==> line == Some(
                "· denied: "@ + what,
            )
            &&& kind == Some("fallback_model"@) && text_at(u, "model"@) == Some(what) ==> line
                == Some("· model fallback → "@ + what)
            &&& kind == Some("mode_changed"@) && text_at(u, "mode"@) == Some(what) ==> line == Some(
                "· permission mode → "@ + what,
            )
            &&& kind == Some("retrying"@) && text_at(u, "reason"@) == Some(what) ==> (line
                matches Some(l) && what.is_suffix_of(l) && (uint_at(u, "attempt"@) matches Some(a)
                ==> l == "· retrying (attempt "@ + decimal_of(a as nat) + ") — "@ + what))
            &&& kind == Some("tool_auto_allowed"@) && text_at(u, "name"@) == Some(what) && text_at(
                u,
                "rule"@,
            ) is Some ==> line == Some(
                "· auto-allowed "@ + what + " (rule: "@ + text_at(u, "rule"@)->0 + ")"@,
            )
            &&& kind == Some("todos_changed"@) && array_at(u, "items"@) is Some ==> line == Some(
                "· todos: "@ + decimal_of(array_at(u, "items"@)->0.len()) + " item(s)"@,
            )
            &&& kind == Some("tool_done"@) ==> (line is Some <==> bool_at(u, "ok"@) == Some(false))
            &&& kind == Some("text_delta"@) ==> line is None
        }),
{
    update_kinds_differ();
    if let Some(l) = line_of_update(u) {
        if text_at(u, "type"@) == Some("retrying"@) && text_at(u, "reason"@) == Some(what) {
            assert(l.skip(l.len() - what.len()) =~= what);
        }
    }
}

/// A compaction is told, and told apart where the summary failed; a queued prompt is
/// told too.
pub proof fn compactions_are_told_apart(u: JsonV)
    requires
        text_at(u, "type"@) == Some("compacted"@),
    ensures
        bool_at(u, "degraded"@) == Some(true) ==> line_of_update(u) == Some(
            "(context compacted — degraded)"@,
        ),
        bool_at(u, "degraded"@) != Some(true) ==> line_of_update(u) == Some(
            "(context compacted)"@,
        ),
{
    update_kinds_differ();
}

/// A prompt starts a turn, an answer takes what waited away, and no other line changes
/// the client.
pub proof fn lines_change_only_what_they_mean(c: ClientV, p: ParkedV, allow: bool, text: Seq<char>)
    ensures
        after_line(c, ActionV::Prompt(text)) == (ClientV { turn_running: true, ..c }),
        after_line(c, ActionV::AnswerAsk(p, allow)) == (ClientV { pending: None, ..c }),
        after_line(c, ActionV::Steer(text)) == c,
        after_line(c, ActionV::Stop) == c,
        after_line(c, ActionV::Nothing) == c,
{
}

} // verus!
