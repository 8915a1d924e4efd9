//! The state of one protocol connection, and what each request, response and
//! engine event does to it.
use crate::acp::{
    ask_reply_from_result, ask_reply_of, bool_param, effort_of, egress_decision_from_result,
    egress_decision_of, err_frame, get_bool_param, get_text_param, normalize_session_name, notify,
    ok_frame, open_request, parse_effort, question_answer_from_result, question_answer_of,
    read_open_request, reply_err, reply_ok, request, request_frame, session_name, skill_values,
    skills_json, text_param, text_values, texts_json, update_frame, Effort, KeepSpec, ServerInfo,
    ServerInfoV, SessionOpen, SessionSpec, SessionSpecV, PROTOCOL_VERSION,
};
use crate::config::{
    as_deref, is_legacy_plan_word, is_plan_word, mode_of, parse_mode, PermissionMode,
};
use crate::engine::{
    opt_json, text_or_null, AskReply, AskReplyV, EgressDecision, EngineEvent, EngineEventV,
    QuestionAnswer, QuestionAnswerV,
};
use crate::images::{images_of, parse_images, pictures, UserImage};
use crate::json::{
    bool_at, field, json_text, no_members, nothing_reads, parse_json, put_reads, text_at, uint_at, views,
    Json, JsonV,
};
use crate::session_server::UPDATE_SCHEMA_VERSION;
use crate::text::{decimal, decimal_of, opt_text, same, texts, trimmed};
use vstd::prelude::*;
use vstd::string::*;

verus! {

/// Sessions that one connection may open: the numbers of their requests are
/// counted from a million times the session's own.
pub const MAX_SESSIONS: u64 = 18_446_744_073_708;

/// The connection's session: the handle that clients know it by, and the id of
/// its log.
#[derive(Debug)]
pub struct SessionState {
    pub id: String,
    pub store_id: String,
}

/// The state of one connection.
#[derive(Debug)]
pub struct Connection {
    session: Option<SessionState>,
    asks: Vec<u64>,
    questions: Vec<u64>,
    egress: Vec<u64>,
    prompts: Vec<Json>,
    next_id: u64,
    req_id: u64,
    info: ServerInfo,
    can_reload: bool,
    strict: bool,
}

/// The view of a [`Connection`].
#[verifier::ext_equal]
pub struct ConnectionV {
    /// The session's handle and the id of its log.
    pub session: Option<(Seq<char>, Seq<char>)>,
    /// Requests to the client that wait for an answer, by kind.
    pub asks: Seq<u64>,
    pub questions: Seq<u64>,
    pub egress: Seq<u64>,
    /// The ids of prompts that wait for their turn to end, oldest first.
    pub prompts: Seq<JsonV>,
    pub next_id: u64,
    pub req_id: u64,
    pub info: ServerInfoV,
    pub can_reload: bool,
    /// Whether the build enforces asking.
    pub strict: bool,
}

impl View for Connection {
    type V = ConnectionV;

    closed spec fn view(&self) -> ConnectionV {
        ConnectionV {
            session: match self.session {
                Some(s) => Some((s.id@, s.store_id@)),
                None => None,
            },
            asks: self.asks@,
            questions: self.questions@,
            egress: self.egress@,
            prompts: views(self.prompts@),
            next_id: self.next_id,
            req_id: self.req_id,
            info: self.info@,
            can_reload: self.can_reload,
            strict: self.strict,
        }
    }
}

/// Ids that never repeat, none above `top`.
pub open spec fn ids_ok(v: Seq<u64>, top: u64) -> bool {
    &&& forall|i: int| 0 <= i < v.len() ==> #[trigger] v[i] <= top
    &&& v.no_duplicates()
}

/// No id of `a` is one of `b`.
pub open spec fn apart(a: Seq<u64>, b: Seq<u64>) -> bool {
    forall|i: int, j: int| 0 <= i < a.len() && 0 <= j < b.len() ==> #[trigger] a[i] != #[trigger] b[j]
}

impl ConnectionV {
    /// An id never means two things, and nothing waits without a session.
    pub open spec fn wf(self) -> bool {
        &&& ids_ok(self.asks, self.req_id)
        &&& ids_ok(self.questions, self.req_id)
        &&& ids_ok(self.egress, self.req_id)
        &&& apart(self.asks, self.questions)
        &&& apart(self.asks, self.egress)
        &&& apart(self.questions, self.egress)
        &&& self.session is None ==> self.asks.len() == 0 && self.questions.len() == 0
            && self.egress.len() == 0 && self.prompts.len() == 0
    }
}

/// `v` without the ids in `gone`.
pub open spec fn minus(v: Seq<u64>, gone: Seq<u64>) -> Seq<u64>
    decreases v.len(),
{
    if v.len() == 0 {
        Seq::empty()
    } else {
        let before = minus(v.drop_last(), gone);
        if gone.contains(v.last()) {
            before
        } else {
            before.push(v.last())
        }
    }
}

/// What is left of `v` is what is not in `gone`, in order.
pub proof fn minus_shape(v: Seq<u64>, gone: Seq<u64>)
    ensures
        forall|x: u64|
            #![trigger minus(v, gone).contains(x)]
            #![trigger v.contains(x)]
            minus(v, gone).contains(x) <==> v.contains(x) && !gone.contains(x),
        v.no_duplicates() ==> minus(v, gone).no_duplicates(),
    decreases v.len(),
{
    if v.len() > 0 {
        let t = v.drop_last();
        minus_shape(t, gone);
        let w = minus(v, gone);
        let u = minus(t, gone);
        assert forall|x: u64| w.contains(x) <==> v.contains(x) && !gone.contains(x) by {
            if w.contains(x) {
                let k = choose|k: int| 0 <= k < w.len() && w[k] == x;
                if k < u.len() {
                    assert(u[k] == x);
                    assert(u.contains(x));
                    let j = choose|j: int| 0 <= j < t.len() && t[j] == x;
                    assert(v[j] == x);
                } else {
                    assert(v[v.len() - 1] == x);
                }
            }
            if v.contains(x) && !gone.contains(x) {
                let k = choose|k: int| 0 <= k < v.len() && v[k] == x;
                if k < t.len() {
                    assert(t[k] == x);
                    assert(u.contains(x));
                    let j = choose|j: int| 0 <= j < u.len() && u[j] == x;
                    assert(w[j] == x);
                } else {
                    assert(w[w.len() - 1] == x);
                }
            }
        }
        if v.no_duplicates() {
            assert(t.no_duplicates());
            assert forall|i: int, j: int| 0 <= i < w.len() && 0 <= j < w.len() && i != j implies w[i]
                != w[j] by {
                if i < u.len() && j < u.len() {
                    assert(w[i] == u[i] && w[j] == u[j]);
                } else if i < u.len() {
                    assert(u.contains(u[i]));
                    let k = choose|k: int| 0 <= k < t.len() && t[k] == u[i];
                    assert(v[k] != v[v.len() - 1]);
                } else {
                    assert(u.contains(u[j]));
                    let k = choose|k: int| 0 <= k < t.len() && t[k] == u[j];
                    assert(v[k] != v[v.len() - 1]);
                }
            }
        }
    }
}

proof fn minus_keeps(v: Seq<u64>, gone: Seq<u64>, top: u64, other: Seq<u64>)
    requires
        ids_ok(v, top),
        apart(v, other),
    ensures
        ids_ok(minus(v, gone), top),
        apart(minus(v, gone), other),
        apart(other, minus(v, gone)),
{
    minus_shape(v, gone);
    let w = minus(v, gone);
    assert forall|i: int| 0 <= i < w.len() implies #[trigger] w[i] <= top by {
        assert(w.contains(w[i]));
        let k = choose|k: int| 0 <= k < v.len() && v[k] == w[i];
        assert(v[k] <= top);
    }
    assert forall|i: int, j: int| 0 <= i < w.len() && 0 <= j < other.len() implies #[trigger] w[i]
        != #[trigger] other[j] by {
        assert(w.contains(w[i]));
        let k = choose|k: int| 0 <= k < v.len() && v[k] == w[i];
        assert(v[k] != other[j]);
    }
}

fn contains_id(v: &[u64], id: u64) -> (r: bool)
    ensures
        r == v@.contains(id),
{
    let mut i: usize = 0;
    while i < v.len()
        invariant
            0 <= i <= v.len(),
            forall|k: int| 0 <= k < i ==> v@[k] != id,
        decreases v.len() - i,
    {
        if v[i] == id {
            return true;
        }
        i = i + 1;
    }
    false
}

fn without_ids(v: &[u64], gone: &[u64]) -> (r: Vec<u64>)
    ensures
        r@ == minus(v@, gone@),
{
    let mut out: Vec<u64> = Vec::new();
    let mut i: usize = 0;
    while i < v.len()
        invariant
            0 <= i <= v.len(),
            out@ == minus(v@.take(i as int), gone@),
        decreases v.len() - i,
    {
        assert(v@.take(i + 1).drop_last() =~= v@.take(i as int));
        if !contains_id(gone, v[i]) {
            out.push(v[i]);
        }
        i = i + 1;
    }
    assert(v@.take(i as int) =~= v@);
    out
}

fn without_id(v: &[u64], id: u64) -> (r: Vec<u64>)
    ensures
        r@ == minus(v@, seq![id]),
{
    let mut one: Vec<u64> = Vec::new();
    one.push(id);
    assert(one@ =~= seq![id]);
    without_ids(v, one.as_slice())
}

/// What the engine or the wire is to do.
#[derive(Debug, PartialEq, Eq)]
pub enum Action {
    /// Write this frame.
    Send(Json),
    /// Interrupt the old session's turn, stop its events, and drop its reply
    /// channels.
    Retire,
    Continue,
    Interrupt,
    Prompt(String, Vec<UserImage>),
    Steer(String, Vec<UserImage>),
    Rename(String),
    SetMode(PermissionMode),
    SetPlan(bool),
    SetEffort(Option<Effort>),
}

/// The view of an [`Action`].
#[verifier::ext_equal]
pub enum ActionV {
    Send(JsonV),
    Retire,
    Continue,
    Interrupt,
    Prompt(Seq<char>, Seq<(Seq<char>, Seq<char>)>),
    Steer(Seq<char>, Seq<(Seq<char>, Seq<char>)>),
    Rename(Seq<char>),
    SetMode(PermissionMode),
    SetPlan(bool),
    SetEffort(Option<Effort>),
}

impl View for Action {
    type V = ActionV;

    open spec fn view(&self) -> ActionV {
        match *self {
            Action::Send(j) => ActionV::Send(j@),
            Action::Retire => ActionV::Retire,
            Action::Continue => ActionV::Continue,
            Action::Interrupt => ActionV::Interrupt,
            Action::Prompt(t, i) => ActionV::Prompt(t@, pictures(i@)),
            Action::Steer(t, i) => ActionV::Steer(t@, pictures(i@)),
            Action::Rename(n) => ActionV::Rename(n@),
            Action::SetMode(m) => ActionV::SetMode(m),
            Action::SetPlan(p) => ActionV::SetPlan(p),
            Action::SetEffort(e) => ActionV::SetEffort(e),
        }
    }
}

/// The views of a list of actions.
pub open spec fn actions(v: Seq<Action>) -> Seq<ActionV> {
    Seq::new(v.len(), |i: int| v[i]@)
}

/// What has to be done outside before the request can be answered.
#[derive(Debug, PartialEq, Eq)]
pub enum Call {
    Nothing,
    /// Open a session; answer with [`Connection::opened`].
    Open { spec: SessionSpec, id: Json, resume: bool },
    /// Read the configuration again; answer with [`Connection::reloaded`].
    Reload { id: Json },
    /// Open the live session again; answer with [`Connection::reopened`].
    Reopen { spec: SessionSpec, id: Json, warnings: Vec<String> },
    /// Ask what fills the context; answer with [`Connection::context_known`].
    Context { id: Json },
}

/// The view of a [`Call`].
#[verifier::ext_equal]
pub enum CallV {
    Nothing,
    Open(SessionSpecV, JsonV, bool),
    Reload(JsonV),
    Reopen(SessionSpecV, JsonV, Seq<Seq<char>>),
    Context(JsonV),
}

impl View for Call {
    type V = CallV;

    open spec fn view(&self) -> CallV {
        match *self {
            Call::Nothing => CallV::Nothing,
            Call::Open { spec, id, resume } => CallV::Open(spec@, id@, resume),
            Call::Reload { id } => CallV::Reload(id@),
            Call::Reopen { spec, id, warnings } => CallV::Reopen(spec@, id@, texts(warnings@)),
            Call::Context { id } => CallV::Context(id@),
        }
    }
}

/// What a request comes to: actions, in order, and then a call.
#[derive(Debug)]
pub struct Reaction {
    pub actions: Vec<Action>,
    pub call: Call,
}

/// The state, the actions and the call after a request.
pub type ReactionV = (ConnectionV, Seq<ActionV>, CallV);

/// A request that is refused: one error response, and nothing else.
pub open spec fn refused(c: ConnectionV, id: JsonV, message: Seq<char>) -> ReactionV {
    (c, seq![ActionV::Send(err_frame(id, message))], CallV::Nothing)
}

/// The request's id, `null` where it has none.
pub open spec fn request_id(msg: JsonV) -> JsonV {
    match field(msg, "id"@) {
        Some(id) => id,
        None => JsonV::Null,
    }
}

/// The request's method, empty where it has none.
pub open spec fn request_method(msg: JsonV) -> Seq<char> {
    match text_at(msg, "method"@) {
        Some(m) => m,
        None => ""@,
    }
}

/// The request's parameters, `null` where it has none.
pub open spec fn request_params(msg: JsonV) -> JsonV {
    match field(msg, "params"@) {
        Some(p) => p,
        None => JsonV::Null,
    }
}

/// The answer to `initialize`.
pub open spec fn initialize_result(info: ServerInfoV) -> JsonV {
    no_members().put("protocolVersion"@, JsonV::Str(PROTOCOL_VERSION@)).put(
        "schemaVersion"@,
        JsonV::Uint(UPDATE_SCHEMA_VERSION),
    ).put("skills"@, skill_values(info.skills)).put(
        "defaultMode"@,
        JsonV::Str(info.default_mode),
    ).put("defaultPlan"@, JsonV::Bool(info.default_plan)).put(
        "contextWindow"@,
        JsonV::Uint(info.context_window),
    )
}

/// What a request that needs a session is answered without one.
pub open spec fn no_session() -> Seq<char> {
    "no session — call session/new first"@
}

/// The one-member object `{key: value}` with `ok: true` before it.
pub open spec fn ok_with(key: Seq<char>, value: JsonV) -> JsonV {
    no_members().put("ok"@, JsonV::Bool(true)).put(key, value)
}

/// The update `{type, key: value}`.
pub open spec fn changed(kind: Seq<char>, key: Seq<char>, value: JsonV) -> JsonV {
    no_members().put("type"@, JsonV::Str(kind)).put(key, value)
}

/// `session/prompt`: the id waits for the turn to end, and the prompt goes to
/// the engine. A prompt that is refused leaves nothing behind.
pub open spec fn prompt_effect(c: ConnectionV, msg: JsonV) -> ReactionV {
    let id = request_id(msg);
    match c.session {
        None => refused(c, id, no_session()),
        Some(_) => match text_param(msg, "text"@) {
            None => refused(c, id, "session/prompt requires params.text"@),
            Some(text) => match images_of(request_params(msg)) {
                Err(e) => refused(c, id, "session/prompt: "@ + e),
                Ok(images) => (
                    ConnectionV { prompts: c.prompts.push(id), ..c },
                    seq![ActionV::Prompt(text, images)],
                    CallV::Nothing,
                ),
            },
        },
    }
}

/// `session/steer`.
pub open spec fn steer_effect(c: ConnectionV, msg: JsonV) -> ReactionV {
    let id = request_id(msg);
    match c.session {
        None => refused(c, id, no_session()),
        Some(_) => match text_param(msg, "text"@) {
            None => refused(c, id, "session/steer requires params.text"@),
            Some(text) => match images_of(request_params(msg)) {
                Err(e) => refused(c, id, "session/steer: "@ + e),
                Ok(images) => (
                    c,
                    seq![
                        ActionV::Steer(text, images),
                        ActionV::Send(
                            ok_frame(id, no_members().put("queued"@, JsonV::Bool(true))),
                        ),
                    ],
                    CallV::Nothing,
                ),
            },
        },
    }
}

/// `session/rename`.
pub open spec fn rename_effect(c: ConnectionV, msg: JsonV) -> ReactionV {
    let id = request_id(msg);
    let name = match text_param(msg, "name"@) {
        Some(s) => session_name(s),
        None => None,
    };
    match c.session {
        None => refused(c, id, no_session()),
        Some(_) => match name {
            None => refused(
                c,
                id,
                "session/rename requires params.name (1–64 chars after trimming)"@,
            ),
            Some(n) => (
                c,
                seq![
                    ActionV::Rename(n),
                    ActionV::Send(ok_frame(id, no_members().put("ok"@, JsonV::Bool(true)))),
                ],
                CallV::Nothing,
            ),
        },
    }
}

/// The acknowledgement and the broadcast of a change.
pub open spec fn announced(
    c: ConnectionV,
    id: JsonV,
    first: ActionV,
    sid: Seq<char>,
    kind: Seq<char>,
    key: Seq<char>,
    value: JsonV,
) -> ReactionV {
    (
        c,
        seq![
            first,
            ActionV::Send(ok_frame(id, ok_with(key, value))),
            ActionV::Send(update_frame(sid, changed(kind, key, value))),
        ],
        CallV::Nothing,
    )
}

/// `session/set_mode`: the old mode word `plan` turns the overlay on; what is
/// acknowledged and broadcast is the mode that takes effect.
pub open spec fn set_mode_effect(c: ConnectionV, msg: JsonV) -> ReactionV {
    let id = request_id(msg);
    let raw = text_param(msg, "mode"@);
    match c.session {
        None => refused(c, id, no_session()),
        Some((sid, _)) => if raw is Some && is_plan_word(raw->0) {
            announced(
                c,
                id,
                ActionV::SetPlan(true),
                sid,
                "plan_changed"@,
                "plan"@,
                JsonV::Bool(true),
            )
        } else {
            let mode = match raw {
                Some(w) => mode_of(w),
                None => None,
            };
            match mode {
                None => refused(
                    c,
                    id,
                    "session/set_mode requires params.mode (ask | bypass | dontask)"@,
                ),
                Some(m) => announced(
                    c,
                    id,
                    ActionV::SetMode(m),
                    sid,
                    "mode_changed"@,
                    "mode"@,
                    JsonV::Str(m.enforced(c.strict).word()),
                ),
            }
        },
    }
}

/// `session/set_plan`.
pub open spec fn set_plan_effect(c: ConnectionV, msg: JsonV) -> ReactionV {
    let id = request_id(msg);
    match c.session {
        None => refused(c, id, no_session()),
        Some((sid, _)) => match bool_param(msg, "plan"@) {
            None => refused(c, id, "session/set_plan requires params.plan (a boolean)"@),
            Some(p) => announced(
                c,
                id,
                ActionV::SetPlan(p),
                sid,
                "plan_changed"@,
                "plan"@,
                JsonV::Bool(p),
            ),
        },
    }
}

/// The refusal of an effort word.
pub open spec fn effort_refusal() -> Seq<char> {
    "session/set_effort requires params.effort (low | medium | high | xhigh | max | default)"@
}

/// The wire spelling of an effort, `null` for the provider's own default.
pub open spec fn effort_value(e: Option<Effort>) -> JsonV {
    match e {
        Some(x) => JsonV::Str(x.word()),
        None => JsonV::Null,
    }
}

/// `session/set_effort`.
pub open spec fn set_effort_effect(c: ConnectionV, msg: JsonV) -> ReactionV {
    let id = request_id(msg);
    let effort = match text_param(msg, "effort"@) {
        Some(w) => effort_of(w),
        None => None,
    };
    match c.session {
        None => refused(c, id, no_session()),
        Some((sid, _)) => match effort {
            None => refused(c, id, effort_refusal()),
            Some(e) => announced(
                c,
                id,
                ActionV::SetEffort(e),
                sid,
                "effort_changed"@,
                "effort"@,
                effort_value(e),
            ),
        },
    }
}

/// What a request does: the state after it, the actions in order, and the call.
pub open spec fn request_effect(c: ConnectionV, msg: JsonV) -> ReactionV {
    let id = request_id(msg);
    let method = request_method(msg);
    if method == "initialize"@ {
        (c, seq![ActionV::Send(ok_frame(id, initialize_result(c.info)))], CallV::Nothing)
    } else if method == "session/new"@ || method == "session/load"@ {
        match open_request(msg, method == "session/load"@) {
            Err(e) => refused(c, id, e),
            Ok(spec) => (c, Seq::empty(), CallV::Open(spec, id, spec is Load)),
        }
    } else if method == "session/prompt"@ {
        prompt_effect(c, msg)
    } else if method == "session/rename"@ {
        rename_effect(c, msg)
    } else if method == "session/set_mode"@ {
        set_mode_effect(c, msg)
    } else if method == "session/set_plan"@ {
        set_plan_effect(c, msg)
    } else if method == "session/set_effort"@ {
        set_effort_effect(c, msg)
    } else if method == "session/steer"@ {
        steer_effect(c, msg)
    } else if method == "session/cancel"@ {
        let done = ActionV::Send(
            ok_frame(id, no_members().put("cancelled"@, JsonV::Bool(true))),
        );
        if c.session is Some {
            (c, seq![ActionV::Interrupt, done], CallV::Nothing)
        } else {
            (c, seq![done], CallV::Nothing)
        }
    } else if method == "session/reload_config"@ {
        if c.can_reload {
            (c, Seq::empty(), CallV::Reload(id))
        } else {
            refused(c, id, "session/reload_config is not supported on this connection"@)
        }
    } else if method == "session/context"@ {
        if c.session is Some {
            (c, Seq::empty(), CallV::Context(id))
        } else {
            refused(c, id, "session/context requires an open session"@)
        }
    } else {
        refused(c, id, "unknown method `"@ + method + "`"@)
    }
}

/// The handle of session number `n`.
pub open spec fn handle_of(n: nat) -> Seq<char> {
    "acp-"@ + decimal_of(n)
}

/// The state once a session with the log `store_id` is installed: the old
/// session's requests and prompts are forgotten.
pub open spec fn installed(c: ConnectionV, store_id: Seq<char>) -> ConnectionV {
    ConnectionV {
        session: Some((handle_of(c.next_id as nat), store_id)),
        asks: Seq::empty(),
        questions: Seq::empty(),
        egress: Seq::empty(),
        prompts: Seq::empty(),
        next_id: (c.next_id + 1) as u64,
        req_id: (c.next_id * 1_000_000) as u64,
        ..c
    }
}

/// The retirement of the old session, where there is one.
pub open spec fn retirement(c: ConnectionV) -> Seq<ActionV> {
    if c.session is Some {
        seq![ActionV::Retire]
    } else {
        Seq::empty()
    }
}

/// The answer to a request for a session.
pub open spec fn open_result(sid: Seq<char>, open: SessionOpen) -> JsonV {
    no_members().put("sessionId"@, JsonV::Str(sid)).put(
        "name"@,
        text_or_null(opt_text(open.name)),
    ).put("mode"@, JsonV::Str(open.mode@)).put("plan"@, JsonV::Bool(open.plan)).put(
        "defaultEffort"@,
        text_or_null(opt_text(open.default_effort)),
    ).put("images"@, JsonV::Bool(true))
}

/// What an opened session does: the old one is retired, a loaded one picks its
/// interrupted turn up again (a fork never does), and the client is answered.
pub open spec fn opened_effect(
    c: ConnectionV,
    id: JsonV,
    resume: bool,
    result: Result<SessionOpen, String>,
) -> (ConnectionV, Seq<ActionV>) {
    match result {
        Err(e) => (c, seq![ActionV::Send(err_frame(id, e@))]),
        Ok(open) => {
            let next = installed(c, open.session_id@);
            let answer = ActionV::Send(
                ok_frame(id, open_result(handle_of(c.next_id as nat), open)),
            );
            (
                next,
                if resume {
                    retirement(c).push(ActionV::Continue).push(answer)
                } else {
                    retirement(c).push(answer)
                },
            )
        },
    }
}

/// What reading the configuration again does. A failure leaves the running
/// session as it was and is broadcast; a success takes effect for the next
/// session, and a live one is opened again through its log.
pub open spec fn reloaded_effect(
    c: ConnectionV,
    id: JsonV,
    result: Result<(ServerInfo, Vec<String>), String>,
) -> ReactionV {
    match result {
        Err(e) => {
            let answer = ActionV::Send(err_frame(id, "config reload failed: "@ + e@));
            match c.session {
                Some((sid, _)) => (
                    c,
                    seq![
                        ActionV::Send(
                            update_frame(
                                sid,
                                changed("config_reload_failed"@, "reason"@, JsonV::Str(e@)),
                            ),
                        ),
                        answer,
                    ],
                    CallV::Nothing,
                ),
                None => (c, seq![answer], CallV::Nothing),
            }
        },
        Ok((info, warnings)) => {
            let next = ConnectionV { info: info@, ..c };
            match c.session {
                None => (
                    next,
                    seq![
                        ActionV::Send(
                            ok_frame(
                                id,
                                no_members().put("ok"@, JsonV::Bool(true)).put(
                                    "model"@,
                                    JsonV::Str(info.model@),
                                ).put("warnings"@, text_values(texts(warnings@))),
                            ),
                        ),
                    ],
                    CallV::Nothing,
                ),
                Some((_, store_id)) => (
                    next,
                    Seq::empty(),
                    CallV::Reopen(SessionSpecV::Load(store_id, None), id, texts(warnings@)),
                ),
            }
        },
    }
}

/// The answer to a reload that opened the live session again.
pub open spec fn reopen_result(
    c: ConnectionV,
    sid: Seq<char>,
    open: SessionOpen,
    warnings: Seq<Seq<char>>,
) -> JsonV {
    no_members().put("ok"@, JsonV::Bool(true)).put("sessionId"@, JsonV::Str(sid)).put(
        "model"@,
        JsonV::Str(c.info.model),
    ).put("mode"@, JsonV::Str(open.mode@)).put("plan"@, JsonV::Bool(open.plan)).put(
        "contextWindow"@,
        JsonV::Uint(c.info.context_window),
    ).put("warnings"@, text_values(warnings))
}

/// The broadcast of a reload that opened the live session again.
pub open spec fn reopen_update(
    c: ConnectionV,
    open: SessionOpen,
    warnings: Seq<Seq<char>>,
) -> JsonV {
    no_members().put("type"@, JsonV::Str("config_reloaded"@)).put(
        "model"@,
        JsonV::Str(c.info.model),
    ).put("mode"@, JsonV::Str(open.mode@)).put("plan"@, JsonV::Bool(open.plan)).put(
        "context_window"@,
        JsonV::Uint(c.info.context_window),
    ).put("skills"@, skill_values(c.info.skills)).put("warnings"@, text_values(warnings))
}

/// The state once the session is given up: its requests and prompts are
/// forgotten with it.
pub open spec fn abandoned(c: ConnectionV) -> ConnectionV {
    ConnectionV {
        session: None,
        asks: Seq::empty(),
        questions: Seq::empty(),
        egress: Seq::empty(),
        prompts: Seq::empty(),
        ..c
    }
}

/// What opening the live session again does. Where that fails there is no
/// session any more; a new one is the way back.
pub open spec fn reopened_effect(
    c: ConnectionV,
    id: JsonV,
    warnings: Seq<Seq<char>>,
    result: Result<SessionOpen, String>,
) -> (ConnectionV, Seq<ActionV>) {
    match result {
        Err(e) => (
            abandoned(c),
            retirement(c).push(
                ActionV::Send(
                    err_frame(id, "config reloaded but session re-open failed: "@ + e@),
                ),
            ),
        ),
        Ok(open) => {
            let sid = handle_of(c.next_id as nat);
            (
                installed(c, open.session_id@),
                retirement(c).push(
                    ActionV::Send(ok_frame(id, reopen_result(c, sid, open, warnings))),
                ).push(ActionV::Send(update_frame(sid, reopen_update(c, open, warnings)))),
            )
        },
    }
}

/// The answer and the broadcast of what fills the context: the window and the
/// rows, or that the session is gone.
pub open spec fn context_effect(
    c: ConnectionV,
    id: JsonV,
    report: Option<(Json, Json)>,
) -> Seq<ActionV> {
    match report {
        None => seq![ActionV::Send(err_frame(id, "session/context: the session is gone"@))],
        Some((window, rows)) => {
            let sid = match c.session {
                Some((s, _)) => s,
                None => ""@,
            };
            seq![
                ActionV::Send(ok_frame(id, no_members().put("ok"@, JsonV::Bool(true)))),
                ActionV::Send(
                    update_frame(
                        sid,
                        no_members().put("type"@, JsonV::Str("context_report"@)).put(
                            "window"@,
                            window@,
                        ).put("rows"@, rows@),
                    ),
                ),
            ]
        },
    }
}

/// An answer from the client to one of our requests.
#[derive(Debug, PartialEq, Eq)]
pub enum Answer {
    Nothing,
    Question(u64, QuestionAnswer),
    Egress(u64, EgressDecision),
    Ask(u64, AskReply),
}

/// The view of an [`Answer`].
#[verifier::ext_equal]
pub enum AnswerV {
    Nothing,
    Question(u64, QuestionAnswerV),
    Egress(u64, EgressDecision),
    Ask(u64, AskReplyV),
}

impl View for Answer {
    type V = AnswerV;

    open spec fn view(&self) -> AnswerV {
        match *self {
            Answer::Nothing => AnswerV::Nothing,
            Answer::Question(id, a) => AnswerV::Question(id, a@),
            Answer::Egress(id, d) => AnswerV::Egress(id, d),
            Answer::Ask(id, a) => AnswerV::Ask(id, a@),
        }
    }
}

/// What a response from the client does: it answers the request of its id,
/// whichever kind that was.
pub open spec fn response_effect(c: ConnectionV, msg: JsonV) -> (ConnectionV, AnswerV) {
    let result = field(msg, "result"@);
    match uint_at(msg, "id"@) {
        None => (c, AnswerV::Nothing),
        Some(id) => if c.questions.contains(id) {
            (
                ConnectionV { questions: minus(c.questions, seq![id]), ..c },
                AnswerV::Question(id, question_answer_of(result)),
            )
        } else if c.egress.contains(id) {
            (
                ConnectionV { egress: minus(c.egress, seq![id]), ..c },
                AnswerV::Egress(id, egress_decision_of(result)),
            )
        } else if c.asks.contains(id) {
            (
                ConnectionV { asks: minus(c.asks, seq![id]), ..c },
                AnswerV::Ask(id, ask_reply_of(result)),
            )
        } else {
            (c, AnswerV::Nothing)
        },
    }
}

/// What an engine event does: the state after it, the id of a new request to
/// the client, and the frames, in order. The end of a turn answers the oldest
/// prompt.
pub open spec fn event_effect(c: ConnectionV, e: EngineEventV, closed: Seq<u64>) -> (
    ConnectionV,
    Option<u64>,
    Seq<JsonV>,
) {
    let sid = match c.session {
        Some((s, _)) => s,
        None => ""@,
    };
    let id = (c.req_id + 1) as u64;
    match e {
        EngineEventV::Ask(summary, why) => (
            ConnectionV { asks: c.asks.push(id), req_id: id, ..c },
            Some(id),
            seq![
                request_frame(
                    id,
                    "session/request_permission"@,
                    no_members().put("sessionId"@, JsonV::Str(sid)).put(
                        "summary"@,
                        JsonV::Str(summary),
                    ).put("protectedWhy"@, text_or_null(why)),
                ),
            ],
        ),
        EngineEventV::Question { id: _, header, prompt, options, multi } => (
            ConnectionV { questions: c.questions.push(id), req_id: id, ..c },
            Some(id),
            seq![
                request_frame(
                    id,
                    "session/request_question"@,
                    no_members().put("sessionId"@, JsonV::Str(sid)).put(
                        "header"@,
                        JsonV::Str(header),
                    ).put("prompt"@, JsonV::Str(prompt)).put("options"@, options).put(
                        "multi"@,
                        JsonV::Bool(multi),
                    ),
                ),
            ],
        ),
        EngineEventV::EgressAsk(host) => (
            ConnectionV { egress: c.egress.push(id), req_id: id, ..c },
            Some(id),
            seq![
                request_frame(
                    id,
                    "session/request_egress"@,
                    no_members().put("sessionId"@, JsonV::Str(sid)).put("host"@, JsonV::Str(host)),
                ),
            ],
        ),
        EngineEventV::TurnDone { outcome, usage, mispredictions: _ } => {
            let note = update_frame(sid, changed("turn_done"@, "outcome"@, outcome));
            let next = ConnectionV {
                asks: minus(c.asks, closed),
                questions: minus(c.questions, closed),
                egress: minus(c.egress, closed),
                ..c
            };
            if c.prompts.len() > 0 {
                (
                    ConnectionV { prompts: c.prompts.drop_first(), ..next },
                    None,
                    seq![
                        note,
                        ok_frame(
                            c.prompts[0],
                            no_members().put(
                                "schemaVersion"@,
                                JsonV::Uint(UPDATE_SCHEMA_VERSION),
                            ).put("outcome"@, outcome).put("usage"@, usage),
                        ),
                    ],
                )
            } else {
                (next, None, seq![note])
            }
        },
        EngineEventV::Update(u) => (
            c,
            None,
            match u {
                Some(update) => seq![update_frame(sid, update)],
                None => Seq::empty(),
            },
        ),
    }
}

proof fn response_keeps_wf(c: ConnectionV, msg: JsonV)
    requires
        c.wf(),
    ensures
        response_effect(c, msg).0.wf(),
{
    match uint_at(msg, "id"@) {
        None => {},
        Some(id) => {
            let g = seq![id];
            minus_keeps(c.asks, g, c.req_id, c.questions);
            minus_keeps(c.asks, g, c.req_id, c.egress);
            minus_keeps(c.questions, g, c.req_id, c.asks);
            minus_keeps(c.questions, g, c.req_id, c.egress);
            minus_keeps(c.egress, g, c.req_id, c.asks);
            minus_keeps(c.egress, g, c.req_id, c.questions);
        },
    }
}

proof fn event_keeps_wf(c: ConnectionV, e: EngineEventV, closed: Seq<u64>)
    requires
        c.wf(),
        c.session is Some,
        c.req_id < u64::MAX,
    ensures
        event_effect(c, e, closed).0.wf(),
{
    let a = minus(c.asks, closed);
    let q = minus(c.questions, closed);
    minus_keeps(c.asks, closed, c.req_id, c.questions);
    minus_keeps(c.asks, closed, c.req_id, c.egress);
    minus_keeps(c.questions, closed, c.req_id, c.egress);
    minus_keeps(c.questions, closed, c.req_id, a);
    minus_keeps(c.egress, closed, c.req_id, a);
    minus_keeps(c.egress, closed, c.req_id, q);
}

impl Connection {
    /// A connection without a session. `can_reload` tells whether it may read
    /// the configuration again, `strict` whether the build enforces asking.
    pub fn new(info: ServerInfo, can_reload: bool, strict: bool) -> (r: Self)
        ensures
            r@.wf(),
            r@ == (ConnectionV {
                session: None,
                asks: Seq::empty(),
                questions: Seq::empty(),
                egress: Seq::empty(),
                prompts: Seq::empty(),
                next_id: 1,
                req_id: 0,
                info: info@,
                can_reload,
                strict,
            }),
    {
        let r = Connection {
            session: None,
            asks: Vec::new(),
            questions: Vec::new(),
            egress: Vec::new(),
            prompts: Vec::new(),
            next_id: 1,
            req_id: 0,
            info,
            can_reload,
            strict,
        };
        assert(r@.prompts =~= Seq::empty());
        r
    }

    /// Sessions that can still be opened.
    pub fn sessions_left(&self) -> (r: bool)
        ensures
            r == (self@.next_id <= MAX_SESSIONS),
    {
        self.next_id <= MAX_SESSIONS
    }

    /// Whether a request to the client can still be numbered.
    pub fn ids_left(&self) -> (r: bool)
        ensures
            r == (self@.req_id < u64::MAX),
    {
        self.req_id < u64::MAX
    }

    /// Whether there is a session.
    pub fn has_session(&self) -> (r: bool)
        ensures
            r == (self@.session is Some),
    {
        self.session.is_some()
    }

    fn session_handle(&self) -> (r: Option<String>)
        ensures
            match r {
                Some(s) => self@.session matches Some((sid, _)) && sid == s@,
                None => self@.session is None,
            },
    {
        match &self.session {
            Some(s) => Some(s.id.clone()),
            None => None,
        }
    }
}

fn one(a: Action) -> (r: Vec<Action>)
    ensures
        actions(r@) == seq![a@],
{
    let mut v: Vec<Action> = Vec::new();
    v.push(a);
    assert(actions(v@) =~= seq![a@]);
    v
}

fn plus(v: Vec<Action>, a: Action) -> (r: Vec<Action>)
    ensures
        actions(r@) == actions(v@).push(a@),
{
    let mut w = v;
    let ghost before = actions(w@);
    w.push(a);
    assert(actions(w@) =~= before.push(a@));
    w
}

fn refuse(id: &Json, message: &str) -> (r: Reaction)
    ensures
        actions(r.actions@) == seq![ActionV::Send(err_frame(id@, message@))],
        r.call@ == CallV::Nothing,
{
    Reaction { actions: one(Action::Send(reply_err(id, message))), call: Call::Nothing }
}

fn announce(id: &Json, first: Action, sid: &str, kind: &str, key: &str, value: Json) -> (r:
    Reaction)
    ensures
        actions(r.actions@) == seq![
            first@,
            ActionV::Send(ok_frame(id@, ok_with(key@, value@))),
            ActionV::Send(update_frame(sid@, changed(kind@, key@, value@))),
        ],
        r.call@ == CallV::Nothing,
{
    let ack = Json::object().with("ok", Json::Bool(true)).with(key, value.clone());
    let note = Json::object().with("type", Json::text(kind)).with(key, value);
    let v = plus(one(first), Action::Send(reply_ok(id, ack)));
    let v = plus(v, Action::Send(notify(sid, note)));
    assert(actions(v@) =~= seq![
        first@,
        ActionV::Send(ok_frame(id@, ok_with(key@, value@))),
        ActionV::Send(update_frame(sid@, changed(kind@, key@, value@))),
    ]);
    Reaction { actions: v, call: Call::Nothing }
}

fn params_of(msg: &Json) -> (r: Json)
    ensures
        r@ == request_params(msg@),
{
    match msg.get("params") {
        Some(p) => p.clone(),
        None => Json::Null,
    }
}

fn text_of(msg: &Json, key: &str) -> (r: Option<String>)
    ensures
        opt_text(r) == text_param(msg@, key@),
{
    match get_text_param(msg, key) {
        Some(s) => Some(s.to_owned()),
        None => None,
    }
}

impl Connection {
    fn on_prompt(&mut self, msg: &Json, id: Json) -> (r: Reaction)
        requires
            old(self)@.wf(),
            id@ == request_id(msg@),
        ensures
            final(self)@.wf(),
            (final(self)@, actions(r.actions@), r.call@) == prompt_effect(old(self)@, msg@),
    {
        let ghost before = self@;
        if self.session.is_none() {
            return refuse(&id, "no session — call session/new first");
        }
        let text = match text_of(msg, "text") {
            Some(t) => t,
            None => {
                return refuse(&id, "session/prompt requires params.text");
            },
        };
        match parse_images(&params_of(msg)) {
            Err(e) => {
                let mut m = "session/prompt: ".to_owned();
                m.append(e.as_str());
                refuse(&id, m.as_str())
            },
            Ok(images) => {
                self.prompts.push(id);
                assert(self@.prompts =~= before.prompts.push(id@));
                assert(self@ =~= prompt_effect(before, msg@).0);
                Reaction { actions: one(Action::Prompt(text, images)), call: Call::Nothing }
            },
        }
    }

    fn on_steer(&self, msg: &Json, id: &Json) -> (r: Reaction)
        requires
            id@ == request_id(msg@),
        ensures
            (self@, actions(r.actions@), r.call@) == steer_effect(self@, msg@),
    {
        if self.session.is_none() {
            return refuse(id, "no session — call session/new first");
        }
        let text = match text_of(msg, "text") {
            Some(t) => t,
            None => {
                return refuse(id, "session/steer requires params.text");
            },
        };
        match parse_images(&params_of(msg)) {
            Err(e) => {
                let mut m = "session/steer: ".to_owned();
                m.append(e.as_str());
                refuse(id, m.as_str())
            },
            Ok(images) => {
                let v = plus(
                    one(Action::Steer(text, images)),
                    Action::Send(reply_ok(id, Json::object().with("queued", Json::Bool(true)))),
                );
                assert(actions(v@) =~= steer_effect(self@, msg@).1);
                Reaction { actions: v, call: Call::Nothing }
            },
        }
    }

    fn on_rename(&self, msg: &Json, id: &Json) -> (r: Reaction)
        requires
            id@ == request_id(msg@),
        ensures
            (self@, actions(r.actions@), r.call@) == rename_effect(self@, msg@),
    {
        if self.session.is_none() {
            return refuse(id, "no session — call session/new first");
        }
        let name: Option<String> = match text_of(msg, "name") {
            Some(s) => normalize_session_name(s.as_str()),
            None => None,
        };
        match name {
            None => refuse(id, "session/rename requires params.name (1–64 chars after trimming)"),
            Some(n) => {
                let v = plus(
                    one(Action::Rename(n)),
                    Action::Send(reply_ok(id, Json::object().with("ok", Json::Bool(true)))),
                );
                assert(actions(v@) =~= rename_effect(self@, msg@).1);
                Reaction { actions: v, call: Call::Nothing }
            },
        }
    }

    fn on_set_mode(&self, msg: &Json, id: &Json) -> (r: Reaction)
        requires
            id@ == request_id(msg@),
        ensures
            (self@, actions(r.actions@), r.call@) == set_mode_effect(self@, msg@),
    {
        let sid = match self.session_handle() {
            Some(s) => s,
            None => {
                return refuse(id, "no session — call session/new first");
            },
        };
        let raw = text_of(msg, "mode");
        if let Some(w) = &raw {
            if is_legacy_plan_word(w.as_str()) {
                return announce(
                    id,
                    Action::SetPlan(true),
                    sid.as_str(),
                    "plan_changed",
                    "plan",
                    Json::Bool(true),
                );
            }
        }
        let mode = match &raw {
            Some(w) => parse_mode(w.as_str()),
            None => None,
        };
        match mode {
            None => refuse(id, "session/set_mode requires params.mode (ask | bypass | dontask)"),
            Some(m) => announce(
                id,
                Action::SetMode(m),
                sid.as_str(),
                "mode_changed",
                "mode",
                Json::text(m.enforce(self.strict).as_str()),
            ),
        }
    }

    fn on_set_plan(&self, msg: &Json, id: &Json) -> (r: Reaction)
        requires
            id@ == request_id(msg@),
        ensures
            (self@, actions(r.actions@), r.call@) == set_plan_effect(self@, msg@),
    {
        let sid = match self.session_handle() {
            Some(s) => s,
            None => {
                return refuse(id, "no session — call session/new first");
            },
        };
        match get_bool_param(msg, "plan") {
            None => refuse(id, "session/set_plan requires params.plan (a boolean)"),
            Some(p) => announce(
                id,
                Action::SetPlan(p),
                sid.as_str(),
                "plan_changed",
                "plan",
                Json::Bool(p),
            ),
        }
    }

    fn on_set_effort(&self, msg: &Json, id: &Json) -> (r: Reaction)
        requires
            id@ == request_id(msg@),
        ensures
            (self@, actions(r.actions@), r.call@) == set_effort_effect(self@, msg@),
    {
        let sid = match self.session_handle() {
            Some(s) => s,
            None => {
                return refuse(id, "no session — call session/new first");
            },
        };
        let effort = match text_of(msg, "effort") {
            Some(w) => parse_effort(w.as_str()),
            None => None,
        };
        match effort {
            None => refuse(
                id,
                "session/set_effort requires params.effort (low | medium | high | xhigh | max | default)",
            ),
            Some(e) => {
                let value = match e {
                    Some(x) => Json::text(x.as_str()),
                    None => Json::Null,
                };
                announce(
                    id,
                    Action::SetEffort(e),
                    sid.as_str(),
                    "effort_changed",
                    "effort",
                    value,
                )
            },
        }
    }

    /// Answers one request, or says what has to be done outside first.
    pub fn handle_request(&mut self, msg: &Json) -> (r: Reaction)
        requires
            old(self)@.wf(),
        ensures
            final(self)@.wf(),
            (final(self)@, actions(r.actions@), r.call@) == request_effect(old(self)@, msg@),
    {
        let id = match msg.get("id") {
            Some(j) => j.clone(),
            None => Json::Null,
        };
        let method = match msg.text_field("method") {
            Some(m) => m,
            None => "",
        };
        if same(method, "initialize") {
            let result = Json::object().with("protocolVersion", Json::text(PROTOCOL_VERSION)).with(
                "schemaVersion",
                Json::Uint(UPDATE_SCHEMA_VERSION),
            ).with("skills", skills_json(&self.info.skills)).with(
                "defaultMode",
                Json::text(self.info.default_mode.as_str()),
            ).with("defaultPlan", Json::Bool(self.info.default_plan)).with(
                "contextWindow",
                Json::Uint(self.info.context_window),
            );
            return Reaction {
                actions: one(Action::Send(reply_ok(&id, result))),
                call: Call::Nothing,
            };
        }
        let load = same(method, "session/load");
        if same(method, "session/new") || load {
            return match read_open_request(msg, load) {
                Err(e) => refuse(&id, e.as_str()),
                Ok(spec) => {
                    let resume = match &spec {
                        SessionSpec::Load { .. } => true,
                        _ => false,
                    };
                    let none: Vec<Action> = Vec::new();
                    assert(actions(none@) =~= Seq::empty());
                    Reaction { actions: none, call: Call::Open { spec, id, resume } }
                },
            };
        }
        if same(method, "session/prompt") {
            return self.on_prompt(msg, id);
        }
        if same(method, "session/rename") {
            return self.on_rename(msg, &id);
        }
        if same(method, "session/set_mode") {
            return self.on_set_mode(msg, &id);
        }
        if same(method, "session/set_plan") {
            return self.on_set_plan(msg, &id);
        }
        if same(method, "session/set_effort") {
            return self.on_set_effort(msg, &id);
        }
        if same(method, "session/steer") {
            return self.on_steer(msg, &id);
        }
        if same(method, "session/cancel") {
            let done = Action::Send(
                reply_ok(&id, Json::object().with("cancelled", Json::Bool(true))),
            );
            let mut v: Vec<Action> = Vec::new();
            if self.session.is_some() {
                v.push(Action::Interrupt);
            }
            v.push(done);
            assert(actions(v@) =~= request_effect(self@, msg@).1);
            return Reaction { actions: v, call: Call::Nothing };
        }
        if same(method, "session/reload_config") {
            if !self.can_reload {
                return refuse(&id, "session/reload_config is not supported on this connection");
            }
            let none: Vec<Action> = Vec::new();
            assert(actions(none@) =~= Seq::empty());
            return Reaction { actions: none, call: Call::Reload { id } };
        }
        if same(method, "session/context") {
            if self.session.is_none() {
                return refuse(&id, "session/context requires an open session");
            }
            let none: Vec<Action> = Vec::new();
            assert(actions(none@) =~= Seq::empty());
            return Reaction { actions: none, call: Call::Context { id } };
        }
        let mut m = "unknown method `".to_owned();
        m.append(method);
        m.append("`");
        refuse(&id, m.as_str())
    }

    /// Takes in a response from the client.
    pub fn handle_response(&mut self, msg: &Json) -> (r: Answer)
        requires
            old(self)@.wf(),
        ensures
            final(self)@.wf(),
            (final(self)@, r@) == response_effect(old(self)@, msg@),
    {
        proof {
            response_keeps_wf(self@, msg@);
        }
        let ghost before = self@;
        let id: u64 = match msg.uint_field("id") {
            Some(n) => n,
            None => {
                return Answer::Nothing;
            },
        };
        let result = msg.get("result");
        if contains_id(self.questions.as_slice(), id) {
            self.questions = without_id(self.questions.as_slice(), id);
            assert(self@ =~= response_effect(before, msg@).0);
            Answer::Question(id, question_answer_from_result(result))
        } else if contains_id(self.egress.as_slice(), id) {
            self.egress = without_id(self.egress.as_slice(), id);
            assert(self@ =~= response_effect(before, msg@).0);
            Answer::Egress(id, egress_decision_from_result(result))
        } else if contains_id(self.asks.as_slice(), id) {
            self.asks = without_id(self.asks.as_slice(), id);
            assert(self@ =~= response_effect(before, msg@).0);
            Answer::Ask(id, ask_reply_from_result(result))
        } else {
            Answer::Nothing
        }
    }

    /// Makes `store_id` the connection's session, and gives its handle and
    /// whether there is an old one to retire.
    fn install_session(&mut self, store_id: &str) -> (r: (String, bool))
        requires
            old(self)@.wf(),
            old(self)@.next_id <= MAX_SESSIONS,
        ensures
            final(self)@.wf(),
            final(self)@ == installed(old(self)@, store_id@),
            r.0@ == handle_of(old(self)@.next_id as nat),
            r.1 == (old(self)@.session is Some),
    {
        let ghost before = self@;
        let retire = self.session.is_some();
        let mut handle = "acp-".to_owned();
        handle.append(decimal(self.next_id).as_str());
        self.session = Some(SessionState { id: handle.clone(), store_id: store_id.to_owned() });
        self.asks = Vec::new();
        self.questions = Vec::new();
        self.egress = Vec::new();
        self.prompts = Vec::new();
        self.req_id = self.next_id * 1_000_000;
        self.next_id = self.next_id + 1;
        assert(self@.prompts =~= Seq::empty());
        assert(self@.asks =~= Seq::empty());
        assert(self@.questions =~= Seq::empty());
        assert(self@.egress =~= Seq::empty());
        assert(self@ =~= installed(before, store_id@));
        (handle, retire)
    }

    /// Takes in the result of opening a session for the request `id`.
    pub fn opened(&mut self, id: &Json, resume: bool, result: &Result<SessionOpen, String>) -> (r:
        Vec<Action>)
        requires
            old(self)@.wf(),
            old(self)@.next_id <= MAX_SESSIONS,
        ensures
            final(self)@.wf(),
            (final(self)@, actions(r@)) == opened_effect(old(self)@, id@, resume, *result),
    {
        let ghost before = self@;
        match result {
            Err(e) => one(Action::Send(reply_err(id, e.as_str()))),
            Ok(open) => {
                let (sid, retire) = self.install_session(open.session_id.as_str());
                let mut v: Vec<Action> = Vec::new();
                if retire {
                    v.push(Action::Retire);
                }
                if resume {
                    v.push(Action::Continue);
                }
                let answer = Json::object().with("sessionId", Json::text(sid.as_str())).with(
                    "name",
                    opt_json(as_deref(&open.name)),
                ).with("mode", Json::text(open.mode.as_str())).with(
                    "plan",
                    Json::Bool(open.plan),
                ).with("defaultEffort", opt_json(as_deref(&open.default_effort))).with(
                    "images",
                    Json::Bool(true),
                );
                v.push(Action::Send(reply_ok(id, answer)));
                assert(actions(v@) =~= opened_effect(before, id@, resume, *result).1);
                v
            },
        }
    }

    /// Takes in the result of reading the configuration again: what to
    /// advertise from now on and the warnings, or what went wrong.
    pub fn reloaded(&mut self, id: &Json, result: Result<(ServerInfo, Vec<String>), String>) -> (r:
        Reaction)
        requires
            old(self)@.wf(),
        ensures
            final(self)@.wf(),
            (final(self)@, actions(r.actions@), r.call@) == reloaded_effect(
                old(self)@,
                id@,
                result,
            ),
    {
        let ghost before = self@;
        match result {
            Err(e) => {
                let mut m = "config reload failed: ".to_owned();
                m.append(e.as_str());
                let answer = Action::Send(reply_err(id, m.as_str()));
                let mut v: Vec<Action> = Vec::new();
                if let Some(sid) = self.session_handle() {
                    v.push(
                        Action::Send(
                            notify(
                                sid.as_str(),
                                Json::object().with(
                                    "type",
                                    Json::text("config_reload_failed"),
                                ).with("reason", Json::text(e.as_str())),
                            ),
                        ),
                    );
                }
                v.push(answer);
                assert(actions(v@) =~= reloaded_effect(before, id@, result).1);
                Reaction { actions: v, call: Call::Nothing }
            },
            Ok((info, warnings)) => {
                self.info = info;
                assert(self@ =~= reloaded_effect(before, id@, result).0);
                match &self.session {
                    None => {
                        let answer = Json::object().with("ok", Json::Bool(true)).with(
                            "model",
                            Json::text(self.info.model.as_str()),
                        ).with("warnings", texts_json(&warnings));
                        Reaction {
                            actions: one(Action::Send(reply_ok(id, answer))),
                            call: Call::Nothing,
                        }
                    },
                    Some(s) => {
                        let none: Vec<Action> = Vec::new();
                        assert(actions(none@) =~= Seq::empty());
                        Reaction {
                            actions: none,
                            call: Call::Reopen {
                                spec: SessionSpec::Load {
                                    session_id: s.store_id.clone(),
                                    name: None,
                                },
                                id: id.clone(),
                                warnings,
                            },
                        }
                    },
                }
            },
        }
    }

    /// Takes in the result of opening the live session again after a reload.
    pub fn reopened(
        &mut self,
        id: &Json,
        warnings: &Vec<String>,
        result: &Result<SessionOpen, String>,
    ) -> (r: Vec<Action>)
        requires
            old(self)@.wf(),
            old(self)@.next_id <= MAX_SESSIONS,
        ensures
            final(self)@.wf(),
            (final(self)@, actions(r@)) == reopened_effect(
                old(self)@,
                id@,
                texts(warnings@),
                *result,
            ),
    {
        let ghost before = self@;
        match result {
            Err(e) => {
                let mut m = "config reloaded but session re-open failed: ".to_owned();
                m.append(e.as_str());
                let mut v: Vec<Action> = Vec::new();
                if self.session.is_some() {
                    v.push(Action::Retire);
                }
                v.push(Action::Send(reply_err(id, m.as_str())));
                self.session = None;
                self.asks = Vec::new();
                self.questions = Vec::new();
                self.egress = Vec::new();
                self.prompts = Vec::new();
                assert(self@ =~= abandoned(before));
                assert(actions(v@) =~= reopened_effect(before, id@, texts(warnings@), *result).1);
                v
            },
            Ok(open) => {
                let (sid, retire) = self.install_session(open.session_id.as_str());
                let mut v: Vec<Action> = Vec::new();
                if retire {
                    v.push(Action::Retire);
                }
                let answer = Json::object().with("ok", Json::Bool(true)).with(
                    "sessionId",
                    Json::text(sid.as_str()),
                ).with("model", Json::text(self.info.model.as_str())).with(
                    "mode",
                    Json::text(open.mode.as_str()),
                ).with("plan", Json::Bool(open.plan)).with(
                    "contextWindow",
                    Json::Uint(self.info.context_window),
                ).with("warnings", texts_json(warnings));
                v.push(Action::Send(reply_ok(id, answer)));
                let note = Json::object().with("type", Json::text("config_reloaded")).with(
                    "model",
                    Json::text(self.info.model.as_str()),
                ).with("mode", Json::text(open.mode.as_str())).with(
                    "plan",
                    Json::Bool(open.plan),
                ).with("context_window", Json::Uint(self.info.context_window)).with(
                    "skills",
                    skills_json(&self.info.skills),
                ).with("warnings", texts_json(warnings));
                v.push(Action::Send(notify(sid.as_str(), note)));
                assert(actions(v@) =~= reopened_effect(before, id@, texts(warnings@), *result).1);
                v
            },
        }
    }

    /// Takes in what fills the context: the window and the rows, or nothing
    /// where the session is gone.
    pub fn context_known(&self, id: &Json, report: &Option<(Json, Json)>) -> (r: Vec<Action>)
        ensures
            actions(r@) == context_effect(self@, id@, *report),
    {
        match report {
            None => one(Action::Send(reply_err(id, "session/context: the session is gone"))),
            Some((window, rows)) => {
                let sid = match self.session_handle() {
                    Some(s) => s,
                    None => "".to_owned(),
                };
                let v = one(
                    Action::Send(reply_ok(id, Json::object().with("ok", Json::Bool(true)))),
                );
                let note = Json::object().with("type", Json::text("context_report")).with(
                    "window",
                    window.clone(),
                ).with("rows", rows.clone());
                let v = plus(v, Action::Send(notify(sid.as_str(), note)));
                assert(actions(v@) =~= context_effect(self@, id@, *report));
                v
            },
        }
    }

    /// Takes in an engine event; `closed` are the ids whose reply channel is
    /// closed. Gives the id of a new request, under which its reply channel is
    /// to be held, and the frames for the client.
    pub fn on_event(&mut self, event: &EngineEvent, closed: &[u64]) -> (r: (Option<u64>, Vec<Json>))
        requires
            old(self)@.wf(),
            old(self)@.session is Some,
            old(self)@.req_id < u64::MAX,
        ensures
            final(self)@.wf(),
            (final(self)@, r.0, views(r.1@)) == event_effect(old(self)@, event@, closed@),
            event@ is TurnDone && old(self)@.prompts.len() > 0 ==> {
                &&& views(r.1@).len() == 2
                &&& field(views(r.1@)[1], "id"@) == Some(old(self)@.prompts[0])
                &&& final(self)@.prompts == old(self)@.prompts.skip(1)
            },
            event@ matches EngineEventV::Update(Some(u)) ==> {
                &&& views(r.1@).len() == 1
                &&& field(views(r.1@)[0], "params"@) matches Some(p)
                &&& field(p, "update"@) == Some(u)
            },
    {
        proof {
            event_keeps_wf(self@, event@, closed@);
            match event@ {
                EngineEventV::TurnDone { outcome, usage, mispredictions } => {
                    turns_answer_the_oldest_prompt(
                        self@,
                        outcome,
                        usage,
                        mispredictions,
                        closed@,
                    );
                },
                EngineEventV::Update(Some(u)) => {
                    updates_reach_the_client(self@, u, closed@);
                },
                _ => {},
            }
        }
        let ghost before = self@;
        let sid = match self.session_handle() {
            Some(s) => s,
            None => "".to_owned(),
        };
        let sid = sid.as_str();
        let mut out: Vec<Json> = Vec::new();
        match event {
            EngineEvent::Ask { summary, protected_why } => {
                let id: u64 = self.req_id + 1;
                self.req_id = id;
                self.asks.push(id);
                out.push(
                    request(
                        id,
                        "session/request_permission",
                        Json::object().with("sessionId", Json::text(sid)).with(
                            "summary",
                            Json::text(summary.as_str()),
                        ).with("protectedWhy", opt_json(as_deref(protected_why))),
                    ),
                );
                assert(views(out@) =~= event_effect(before, event@, closed@).2);
                assert(self@ =~= event_effect(before, event@, closed@).0);
                (Some(id), out)
            },
            EngineEvent::Question { id: _, header, prompt, options, multi } => {
                let id: u64 = self.req_id + 1;
                self.req_id = id;
                self.questions.push(id);
                out.push(
                    request(
                        id,
                        "session/request_question",
                        Json::object().with("sessionId", Json::text(sid)).with(
                            "header",
                            Json::text(header.as_str()),
                        ).with("prompt", Json::text(prompt.as_str())).with(
                            "options",
                            options.clone(),
                        ).with("multi", Json::Bool(*multi)),
                    ),
                );
                assert(views(out@) =~= event_effect(before, event@, closed@).2);
                assert(self@ =~= event_effect(before, event@, closed@).0);
                (Some(id), out)
            },
            EngineEvent::EgressAsk { host } => {
                let id: u64 = self.req_id + 1;
                self.req_id = id;
                self.egress.push(id);
                out.push(
                    request(
                        id,
                        "session/request_egress",
                        Json::object().with("sessionId", Json::text(sid)).with(
                            "host",
                            Json::text(host.as_str()),
                        ),
                    ),
                );
                assert(views(out@) =~= event_effect(before, event@, closed@).2);
                assert(self@ =~= event_effect(before, event@, closed@).0);
                (Some(id), out)
            },
            EngineEvent::TurnDone { outcome, usage, mispredictions: _ } => {
                self.asks = without_ids(self.asks.as_slice(), closed);
                self.questions = without_ids(self.questions.as_slice(), closed);
                self.egress = without_ids(self.egress.as_slice(), closed);
                out.push(
                    notify(
                        sid,
                        Json::object().with("type", Json::text("turn_done")).with(
                            "outcome",
                            outcome.clone(),
                        ),
                    ),
                );
                if self.prompts.len() > 0 {
                    let ghost all = self.prompts@;
                    let id = self.prompts.remove(0);
                    assert(views(self.prompts@) =~= before.prompts.drop_first());
                    assert(id@ == before.prompts[0]);
                    out.push(
                        reply_ok(
                            &id,
                            Json::object().with(
                                "schemaVersion",
                                Json::Uint(UPDATE_SCHEMA_VERSION),
                            ).with("outcome", outcome.clone()).with("usage", usage.clone()),
                        ),
                    );
                }
                assert(views(out@) =~= event_effect(before, event@, closed@).2);
                assert(self@ =~= event_effect(before, event@, closed@).0);
                (None, out)
            },
            EngineEvent::Update(u) => {
                if let Some(update) = u {
                    out.push(notify(sid, update.clone()));
                }
                assert(views(out@) =~= event_effect(before, event@, closed@).2);
                (None, out)
            },
        }
    }
}

/// What one line from the client comes to.
#[derive(Debug)]
pub enum Heard {
    /// Not JSON: there is no id to answer.
    Noise,
    Response(Answer),
    Request(Reaction),
}

impl Connection {
    /// Takes in one message: a response where it has no method, else a request.
    pub fn hear_value(&mut self, msg: &Json) -> (r: Heard)
        requires
            old(self)@.wf(),
        ensures
            final(self)@.wf(),
            match r {
                Heard::Noise => false,
                Heard::Response(a) => field(msg@, "method"@) is None && (final(self)@, a@)
                    == response_effect(old(self)@, msg@),
                Heard::Request(x) => field(msg@, "method"@) is Some && (
                    final(self)@,
                    actions(x.actions@),
                    x.call@,
                ) == request_effect(old(self)@, msg@),
            },
    {
        if msg.get("method").is_none() {
            Heard::Response(self.handle_response(msg))
        } else {
            Heard::Request(self.handle_request(msg))
        }
    }

    /// Takes in one line from the client.
    pub fn hear(&mut self, line: &str) -> (r: Heard)
        requires
            old(self)@.wf(),
        ensures
            final(self)@.wf(),
            match (json_text(line@), r) {
                (None, Heard::Noise) => final(self)@ == old(self)@,
                (Some(msg), Heard::Response(a)) => field(msg, "method"@) is None && (
                    final(self)@,
                    a@,
                ) == response_effect(old(self)@, msg),
                (Some(msg), Heard::Request(x)) => field(msg, "method"@) is Some && (
                    final(self)@,
                    actions(x.actions@),
                    x.call@,
                ) == request_effect(old(self)@, msg),
                _ => false,
            },
    {
        match parse_json(line) {
            None => Heard::Noise,
            Some(msg) => self.hear_value(&msg),
        }
    }
}

/// A frame that answers the request `id`.
pub open spec fn answers(a: ActionV, id: JsonV) -> bool {
    ||| exists|r: JsonV| a == ActionV::Send(#[trigger] ok_frame(id, r))
    ||| exists|m: Seq<char>| a == ActionV::Send(#[trigger] err_frame(id, m))
}

/// The id of the request that a call belongs to.
pub open spec fn call_id(c: CallV) -> Option<JsonV> {
    match c {
        CallV::Nothing => None,
        CallV::Open(_, id, _) => Some(id),
        CallV::Reload(id) => Some(id),
        CallV::Reopen(_, id, _) => Some(id),
        CallV::Context(id) => Some(id),
    }
}

/// Every request is dealt with: it is answered at once, it waits for a call
/// that carries its id, or it waits for a turn to end. Apart from what waits
/// for a turn, a request by itself changes nothing.
pub proof fn requests_are_dealt_with(c: ConnectionV, msg: JsonV)
    ensures
        ({
            let (next, done, call) = request_effect(c, msg);
            let id = request_id(msg);
            ||| next == c && call is Nothing && exists|i: int|
                0 <= i < done.len() && answers(#[trigger] done[i], id)
            ||| next == c && done.len() == 0 && call_id(call) == Some(id)
            ||| next == (ConnectionV { prompts: c.prompts.push(id), ..c }) && call is Nothing
        }),
{
    let (next, done, call) = request_effect(c, msg);
    let id = request_id(msg);
    if next == c && call is Nothing && done.len() > 0 {
        if done[0] is Send {
            assert(answers(done[0], id));
        } else if done.len() > 1 && done[1] is Send {
            assert(answers(done[1], id));
        }
    }
}

/// The connection after `n` turns have ended.
pub open spec fn after_turns(c: ConnectionV, ends: Seq<(JsonV, JsonV)>) -> ConnectionV
    decreases ends.len(),
{
    if ends.len() == 0 {
        c
    } else {
        let e = EngineEventV::TurnDone {
            outcome: ends.last().0,
            usage: ends.last().1,
            mispredictions: 0,
        };
        event_effect(after_turns(c, ends.drop_last()), e, Seq::empty()).0
    }
}

/// Prompts are answered in the order in which they came: a turn's end answers
/// the oldest one that waits, and nothing else takes one away.
pub proof fn prompts_are_answered_in_order(c: ConnectionV, ends: Seq<(JsonV, JsonV)>)
    requires
        ends.len() <= c.prompts.len(),
    ensures
        after_turns(c, ends).prompts == c.prompts.skip(ends.len() as int),
    decreases ends.len(),
{
    if ends.len() == 0 {
        assert(c.prompts.skip(0) =~= c.prompts);
    } else {
        prompts_are_answered_in_order(c, ends.drop_last());
        let k = ends.len() - 1;
        assert(c.prompts.skip(k as int).drop_first() =~= c.prompts.skip(k + 1));
    }
}

/// An event that ends no turn leaves the waiting prompts alone.
pub proof fn only_turns_answer_prompts(c: ConnectionV, e: EngineEventV, closed: Seq<u64>)
    requires
        !(e is TurnDone),
    ensures
        event_effect(c, e, closed).0.prompts == c.prompts,
{
}

/// A new request to the client has an id that no other waits under.
pub proof fn new_requests_have_new_ids(c: ConnectionV, e: EngineEventV, closed: Seq<u64>)
    requires
        c.wf(),
        c.req_id < u64::MAX,
    ensures
        event_effect(c, e, closed).1 matches Some(id) ==> !c.asks.contains(id)
            && !c.questions.contains(id) && !c.egress.contains(id),
{
    let id = (c.req_id + 1) as u64;
    if c.asks.contains(id) {
        let k = choose|k: int| 0 <= k < c.asks.len() && c.asks[k] == id;
        assert(c.asks[k] <= c.req_id);
    }
    if c.questions.contains(id) {
        let k = choose|k: int| 0 <= k < c.questions.len() && c.questions[k] == id;
        assert(c.questions[k] <= c.req_id);
    }
    if c.egress.contains(id) {
        let k = choose|k: int| 0 <= k < c.egress.len() && c.egress[k] == id;
        assert(c.egress[k] <= c.req_id);
    }
}

/// An answer is taken once: the same response a second time does nothing.
pub proof fn answers_are_taken_once(c: ConnectionV, msg: JsonV)
    requires
        c.wf(),
    ensures
        response_effect(response_effect(c, msg).0, msg) == (
            response_effect(c, msg).0,
            AnswerV::Nothing,
        ),
{
    match uint_at(msg, "id"@) {
        None => {},
        Some(id) => {
            let g = seq![id];
            minus_shape(c.asks, g);
            minus_shape(c.questions, g);
            minus_shape(c.egress, g);
            assert(g.contains(id)) by {
                assert(g[0] == id);
            }
            if c.questions.contains(id) {
                let q = choose|q: int| 0 <= q < c.questions.len() && c.questions[q] == id;
                if c.asks.contains(id) {
                    let a = choose|a: int| 0 <= a < c.asks.len() && c.asks[a] == id;
                    assert(c.asks[a] != c.questions[q]);
                }
                if c.egress.contains(id) {
                    let a = choose|a: int| 0 <= a < c.egress.len() && c.egress[a] == id;
                    assert(c.questions[q] != c.egress[a]);
                }
            } else if c.egress.contains(id) {
                let q = choose|q: int| 0 <= q < c.egress.len() && c.egress[q] == id;
                if c.asks.contains(id) {
                    let a = choose|a: int| 0 <= a < c.asks.len() && c.asks[a] == id;
                    assert(c.asks[a] != c.egress[q]);
                }
            }
        },
    }
}

/// A session that is replaced leaves nothing behind: no answer reaches it, and
/// none of its prompts waits.
pub proof fn replaced_sessions_are_forgotten(c: ConnectionV, store_id: Seq<char>, msg: JsonV)
    ensures
        response_effect(installed(c, store_id), msg).1 == AnswerV::Nothing,
        installed(c, store_id).prompts.len() == 0,
{
}

/// A configuration that cannot be read again, and a session that cannot be
/// opened, leave the connection as it was.
pub proof fn failures_change_nothing(c: ConnectionV, id: JsonV, error: String, resume: bool)
    ensures
        reloaded_effect(c, id, Err(error)).0 == c,
        reloaded_effect(c, id, Err(error)).2 == CallV::Nothing,
        opened_effect(c, id, resume, Err(error)).0 == c,
{
}

/// A session that cannot be opened again after a reload is given up: none is
/// left, no answer reaches it, and none of its prompts waits. What the reload
/// advertises stays.
pub proof fn failed_reopens_leave_no_session(
    c: ConnectionV,
    id: JsonV,
    warnings: Seq<Seq<char>>,
    error: String,
    msg: JsonV,
)
    ensures
        ({
            let (after, acts) = reopened_effect(c, id, warnings, Err(error));
            &&& after.session is None
            &&& after.prompts.len() == 0
            &&& response_effect(after, msg).1 == AnswerV::Nothing
            &&& after.info == c.info
            &&& c.session is Some ==> acts[0] == ActionV::Retire
        }),
{
}

/// No two sessions of a connection share a handle.
pub proof fn handles_differ(a: nat, b: nat)
    requires
        a != b,
    ensures
        handle_of(a) != handle_of(b),
{
    if handle_of(a) == handle_of(b) {
        let k = "acp-"@.len() as int;
        assert(handle_of(a).skip(k) =~= decimal_of(a));
        assert(handle_of(b).skip(k) =~= decimal_of(b));
        crate::text::decimal_injective(a, b);
    }
}

proof fn frame_names_differ()
    ensures
        "jsonrpc"@ != "id"@,
        "jsonrpc"@ != "result"@,
        "jsonrpc"@ != "error"@,
        "jsonrpc"@ != "method"@,
        "jsonrpc"@ != "params"@,
        "id"@ != "result"@,
        "id"@ != "error"@,
        "id"@ != "method"@,
        "id"@ != "params"@,
        "result"@ != "error"@,
        "result"@ != "method"@,
        "result"@ != "params"@,
        "error"@ != "method"@,
        "error"@ != "params"@,
        "method"@ != "params"@,
        "schemaVersion"@ != "sessionId"@,
        "schemaVersion"@ != "update"@,
        "sessionId"@ != "update"@,
        "schemaVersion"@ != "outcome"@,
        "schemaVersion"@ != "usage"@,
        "outcome"@ != "usage"@,
        "type"@ != "outcome"@,
        "sessionId"@ != "summary"@,
        "sessionId"@ != "protectedWhy"@,
        "summary"@ != "protectedWhy"@,
        "sessionId"@ != "header"@,
        "sessionId"@ != "prompt"@,
        "sessionId"@ != "options"@,
        "sessionId"@ != "multi"@,
        "header"@ != "prompt"@,
        "header"@ != "options"@,
        "header"@ != "multi"@,
        "prompt"@ != "options"@,
        "prompt"@ != "multi"@,
        "options"@ != "multi"@,
        "sessionId"@ != "host"@,
        "code"@ != "message"@,
{
    reveal_strlit("jsonrpc");
    reveal_strlit("id");
    reveal_strlit("result");
    reveal_strlit("error");
    reveal_strlit("method");
    reveal_strlit("params");
    reveal_strlit("schemaVersion");
    reveal_strlit("sessionId");
    reveal_strlit("update");
    reveal_strlit("outcome");
    reveal_strlit("usage");
    reveal_strlit("type");
    reveal_strlit("summary");
    reveal_strlit("protectedWhy");
    reveal_strlit("header");
    reveal_strlit("prompt");
    reveal_strlit("options");
    reveal_strlit("multi");
    reveal_strlit("host");
    reveal_strlit("code");
    reveal_strlit("message");
    assert("jsonrpc"@.len() != "id"@.len());
    assert("jsonrpc"@.len() != "result"@.len());
    assert("jsonrpc"@.len() != "error"@.len());
    assert("jsonrpc"@.len() != "method"@.len());
    assert("jsonrpc"@.len() != "params"@.len());
    assert("id"@.len() != "result"@.len());
    assert("id"@.len() != "error"@.len());
    assert("id"@.len() != "method"@.len());
    assert("id"@.len() != "params"@.len());
    assert("result"@.len() != "error"@.len());
    assert("result"@[0] != "method"@[0]);
    assert("result"@[0] != "params"@[0]);
    assert("error"@.len() != "method"@.len());
    assert("error"@.len() != "params"@.len());
    assert("method"@[0] != "params"@[0]);
    assert("schemaVersion"@.len() != "sessionId"@.len());
    assert("schemaVersion"@.len() != "update"@.len());
    assert("sessionId"@.len() != "update"@.len());
    assert("schemaVersion"@.len() != "outcome"@.len());
    assert("schemaVersion"@.len() != "usage"@.len());
    assert("outcome"@.len() != "usage"@.len());
    assert("type"@.len() != "outcome"@.len());
    assert("sessionId"@.len() != "summary"@.len());
    assert("sessionId"@.len() != "protectedWhy"@.len());
    assert("summary"@.len() != "protectedWhy"@.len());
    assert("sessionId"@.len() != "header"@.len());
    assert("sessionId"@.len() != "prompt"@.len());
    assert("sessionId"@.len() != "options"@.len());
    assert("sessionId"@.len() != "multi"@.len());
    assert("header"@[0] != "prompt"@[0]);
    assert("header"@.len() != "options"@.len());
    assert("header"@.len() != "multi"@.len());
    assert("prompt"@.len() != "options"@.len());
    assert("prompt"@.len() != "multi"@.len());
    assert("options"@.len() != "multi"@.len());
    assert("sessionId"@.len() != "host"@.len());
    assert("code"@.len() != "message"@.len());
}

/// The end of a turn answers the oldest prompt that waits, with how the turn
/// ended, and takes that prompt away; the client is told of the end before.
pub proof fn turns_answer_the_oldest_prompt(
    c: ConnectionV,
    outcome: JsonV,
    usage: JsonV,
    mispredictions: u64,
    closed: Seq<u64>,
)
    ensures
        ({
            let (next, new, frames) = event_effect(
                c,
                EngineEventV::TurnDone { outcome, usage, mispredictions },
                closed,
            );
            &&& new is None
            &&& frames.len() > 0
            &&& text_at(frames[0], "method"@) == Some("session/update"@)
            &&& field(frames[0], "id"@) is None
            &&& field(frames[0], "params"@) matches Some(p) && field(p, "update"@) matches Some(u)
                && text_at(u, "type"@) == Some("turn_done"@) && field(u, "outcome"@) == Some(outcome)
            &&& c.prompts.len() == 0 ==> frames.len() == 1 && next.prompts == c.prompts
            &&& c.prompts.len() > 0 ==> {
                &&& frames.len() == 2
                &&& field(frames[1], "id"@) == Some(c.prompts[0])
                &&& field(frames[1], "error"@) is None
                &&& field(frames[1], "result"@) matches Some(r) && field(r, "outcome"@) == Some(
                    outcome,
                ) && field(r, "usage"@) == Some(usage)
                &&& next.prompts == c.prompts.skip(1)
            }
        }),
{
    broadcast use {put_reads, nothing_reads};

    frame_names_differ();
    if c.prompts.len() > 0 {
        assert(c.prompts.drop_first() =~= c.prompts.skip(1));
    }
}

/// The ids that a run of turn ends answers, in order.
pub open spec fn ids_answered(c: ConnectionV, ends: Seq<(JsonV, JsonV)>) -> Seq<Option<JsonV>>
    decreases ends.len(),
{
    if ends.len() == 0 {
        Seq::empty()
    } else {
        let e = EngineEventV::TurnDone {
            outcome: ends.last().0,
            usage: ends.last().1,
            mispredictions: 0,
        };
        let frames = event_effect(after_turns(c, ends.drop_last()), e, Seq::empty()).2;
        ids_answered(c, ends.drop_last()).push(field(frames.last(), "id"@))
    }
}

/// Over any number of turn ends the prompts that waited first are answered, each
/// once, in the order in which they came.
pub proof fn waiting_prompts_are_answered_once_in_order(c: ConnectionV, ends: Seq<(JsonV, JsonV)>)
    requires
        ends.len() <= c.prompts.len(),
    ensures
        ids_answered(c, ends).len() == ends.len(),
        forall|i: int|
            0 <= i < ends.len() ==> #[trigger] ids_answered(c, ends)[i] == Some(c.prompts[i]),
    decreases ends.len(),
{
    if ends.len() > 0 {
        let t = ends.drop_last();
        waiting_prompts_are_answered_once_in_order(c, t);
        prompts_are_answered_in_order(c, t);
        turns_answer_the_oldest_prompt(
            after_turns(c, t),
            ends.last().0,
            ends.last().1,
            0,
            Seq::empty(),
        );
        let a = ids_answered(c, ends);
        let b = ids_answered(c, t);
        assert forall|i: int| 0 <= i < ends.len() implies #[trigger] a[i] == Some(c.prompts[i]) by {
            if i < t.len() {
                assert(a[i] == b[i]);
            }
        }
    }
}

/// The session's handle.
pub open spec fn handle_in(c: ConnectionV) -> Seq<char>
    recommends
        c.session is Some,
{
    (c.session->0).0
}

/// Every update of the engine is handed to the client, for its session, and
/// changes nothing; an event that has none sends nothing.
pub proof fn updates_reach_the_client(c: ConnectionV, update: JsonV, closed: Seq<u64>)
    requires
        c.session is Some,
    ensures
        ({
            let (next, new, frames) = event_effect(c, EngineEventV::Update(Some(update)), closed);
            &&& next == c
            &&& new is None
            &&& frames.len() == 1
            &&& text_at(frames[0], "method"@) == Some("session/update"@)
            &&& field(frames[0], "id"@) is None
            &&& field(frames[0], "params"@) matches Some(p) && field(p, "update"@) == Some(update)
                && text_at(p, "sessionId"@) == Some(handle_in(c))
        }),
        event_effect(c, EngineEventV::Update(None), closed) == (
            c,
            None::<u64>,
            Seq::<JsonV>::empty(),
        ),
{
    broadcast use {put_reads, nothing_reads};

    frame_names_differ();
}

/// What the engine asks of a human is asked of the client, once, under a new id,
/// in the engine's own words; and the answer is awaited under that id and no
/// other kind.
pub proof fn asks_reach_the_client(c: ConnectionV, e: EngineEventV, closed: Seq<u64>)
    requires
        c.session is Some,
        c.req_id < u64::MAX,
        e is Ask || e is Question || e is EgressAsk,
    ensures
        ({
            let (next, new, frames) = event_effect(c, e, closed);
            &&& new matches Some(id) && id > c.req_id && next.req_id == id && frames.len() == 1
                && uint_at(frames[0], "id"@) == Some(id) && (field(frames[0], "params"@) matches Some(
                p,
            ) && text_at(p, "sessionId"@) == Some(handle_in(c)) && (match e {
                EngineEventV::Ask(summary, why) => {
                    &&& text_at(frames[0], "method"@) == Some("session/request_permission"@)
                    &&& text_at(p, "summary"@) == Some(summary)
                    &&& text_at(p, "protectedWhy"@) == why
                    &&& next.asks == c.asks + seq![id]
                    &&& next.questions == c.questions && next.egress == c.egress
                },
                EngineEventV::Question { id: _, header, prompt, options, multi } => {
                    &&& text_at(frames[0], "method"@) == Some("session/request_question"@)
                    &&& text_at(p, "header"@) == Some(header)
                    &&& text_at(p, "prompt"@) == Some(prompt)
                    &&& field(p, "options"@) == Some(options)
                    &&& bool_at(p, "multi"@) == Some(multi)
                    &&& next.questions == c.questions + seq![id]
                    &&& next.asks == c.asks && next.egress == c.egress
                },
                EngineEventV::EgressAsk(host) => {
                    &&& text_at(frames[0], "method"@) == Some("session/request_egress"@)
                    &&& text_at(p, "host"@) == Some(host)
                    &&& next.egress == c.egress + seq![id]
                    &&& next.asks == c.asks && next.questions == c.questions
                },
                _ => false,
            }))
            &&& next.session == c.session
            &&& next.prompts == c.prompts
        }),
{
    broadcast use {put_reads, nothing_reads};

    frame_names_differ();
    let id = (c.req_id + 1) as u64;
    assert(c.asks.push(id) =~= c.asks + seq![id]);
    assert(c.questions.push(id) =~= c.questions + seq![id]);
    assert(c.egress.push(id) =~= c.egress + seq![id]);
}

proof fn request_names_differ()
    ensures
        "initialize"@ != "session/new"@,
        "initialize"@ != "session/load"@,
        "initialize"@ != "session/prompt"@,
        "initialize"@ != "session/rename"@,
        "initialize"@ != "session/set_mode"@,
        "initialize"@ != "session/set_plan"@,
        "initialize"@ != "session/set_effort"@,
        "initialize"@ != "session/steer"@,
        "initialize"@ != "session/cancel"@,
        "initialize"@ != "session/reload_config"@,
        "initialize"@ != "session/context"@,
        "session/new"@ != "session/load"@,
        "session/new"@ != "session/prompt"@,
        "session/new"@ != "session/rename"@,
        "session/new"@ != "session/set_mode"@,
        "session/new"@ != "session/set_plan"@,
        "session/new"@ != "session/set_effort"@,
        "session/new"@ != "session/steer"@,
        "session/new"@ != "session/cancel"@,
        "session/new"@ != "session/reload_config"@,
        "session/new"@ != "session/context"@,
        "session/load"@ != "session/prompt"@,
        "session/load"@ != "session/rename"@,
        "session/load"@ != "session/set_mode"@,
        "session/load"@ != "session/set_plan"@,
        "session/load"@ != "session/set_effort"@,
        "session/load"@ != "session/steer"@,
        "session/load"@ != "session/cancel"@,
        "session/load"@ != "session/reload_config"@,
        "session/load"@ != "session/context"@,
        "session/prompt"@ != "session/rename"@,
        "session/prompt"@ != "session/set_mode"@,
        "session/prompt"@ != "session/set_plan"@,
        "session/prompt"@ != "session/set_effort"@,
        "session/prompt"@ != "session/steer"@,
        "session/prompt"@ != "session/cancel"@,
        "session/prompt"@ != "session/reload_config"@,
        "session/prompt"@ != "session/context"@,
        "session/rename"@ != "session/set_mode"@,
        "session/rename"@ != "session/set_plan"@,
        "session/rename"@ != "session/set_effort"@,
        "session/rename"@ != "session/steer"@,
        "session/rename"@ != "session/cancel"@,
        "session/rename"@ != "session/reload_config"@,
        "session/rename"@ != "session/context"@,
        "session/set_mode"@ != "session/set_plan"@,
        "session/set_mode"@ != "session/set_effort"@,
        "session/set_mode"@ != "session/steer"@,
        "session/set_mode"@ != "session/cancel"@,
        "session/set_mode"@ != "session/reload_config"@,
        "session/set_mode"@ != "session/context"@,
        "session/set_plan"@ != "session/set_effort"@,
        "session/set_plan"@ != "session/steer"@,
        "session/set_plan"@ != "session/cancel"@,
        "session/set_plan"@ != "session/reload_config"@,
        "session/set_plan"@ != "session/context"@,
        "session/set_effort"@ != "session/steer"@,
        "session/set_effort"@ != "session/cancel"@,
        "session/set_effort"@ != "session/reload_config"@,
        "session/set_effort"@ != "session/context"@,
        "session/steer"@ != "session/cancel"@,
        "session/steer"@ != "session/reload_config"@,
        "session/steer"@ != "session/context"@,
        "session/cancel"@ != "session/reload_config"@,
        "session/cancel"@ != "session/context"@,
        "session/reload_config"@ != "session/context"@,
        "ok"@ != "mode"@,
        "ok"@ != "plan"@,
        "ok"@ != "effort"@,
        "type"@ != "mode"@,
        "type"@ != "plan"@,
        "type"@ != "effort"@,
        "type"@ != "reason"@,
        "type"@ != "window"@,
        "type"@ != "rows"@,
        "window"@ != "rows"@,
        "protocolVersion"@ != "schemaVersion"@,
        "protocolVersion"@ != "skills"@,
        "protocolVersion"@ != "defaultMode"@,
        "protocolVersion"@ != "defaultPlan"@,
        "protocolVersion"@ != "contextWindow"@,
        "schemaVersion"@ != "skills"@,
        "schemaVersion"@ != "defaultMode"@,
        "schemaVersion"@ != "defaultPlan"@,
        "schemaVersion"@ != "contextWindow"@,
        "skills"@ != "defaultMode"@,
        "skills"@ != "defaultPlan"@,
        "skills"@ != "contextWindow"@,
        "defaultMode"@ != "defaultPlan"@,
        "defaultMode"@ != "contextWindow"@,
        "defaultPlan"@ != "contextWindow"@,
        "sessionId"@ != "name"@,
        "sessionId"@ != "mode"@,
        "sessionId"@ != "plan"@,
        "sessionId"@ != "defaultEffort"@,
        "sessionId"@ != "images"@,
        "name"@ != "mode"@,
        "name"@ != "plan"@,
        "name"@ != "defaultEffort"@,
        "name"@ != "images"@,
        "mode"@ != "plan"@,
        "mode"@ != "defaultEffort"@,
        "mode"@ != "images"@,
        "plan"@ != "defaultEffort"@,
        "plan"@ != "images"@,
        "defaultEffort"@ != "images"@,
        "ok"@ != "model"@,
        "ok"@ != "warnings"@,
        "model"@ != "warnings"@,
        "ok"@ != "sessionId"@,
        "ok"@ != "contextWindow"@,
        "sessionId"@ != "model"@,
        "sessionId"@ != "contextWindow"@,
        "sessionId"@ != "warnings"@,
        "model"@ != "mode"@,
        "model"@ != "plan"@,
        "model"@ != "contextWindow"@,
        "mode"@ != "contextWindow"@,
        "mode"@ != "warnings"@,
        "plan"@ != "contextWindow"@,
        "plan"@ != "warnings"@,
        "contextWindow"@ != "warnings"@,
        "type"@ != "model"@,
        "type"@ != "context_window"@,
        "type"@ != "skills"@,
        "type"@ != "warnings"@,
        "model"@ != "context_window"@,
        "model"@ != "skills"@,
        "mode"@ != "context_window"@,
        "mode"@ != "skills"@,
        "plan"@ != "context_window"@,
        "plan"@ != "skills"@,
        "context_window"@ != "skills"@,
        "context_window"@ != "warnings"@,
        "skills"@ != "warnings"@,
{
    reveal_strlit("initialize");
    reveal_strlit("session/new");
    reveal_strlit("session/load");
    reveal_strlit("session/prompt");
    reveal_strlit("session/rename");
    reveal_strlit("session/set_mode");
    reveal_strlit("session/set_plan");
    reveal_strlit("session/set_effort");
    reveal_strlit("session/steer");
    reveal_strlit("session/cancel");
    reveal_strlit("session/reload_config");
    reveal_strlit("session/context");
    reveal_strlit("ok");
    reveal_strlit("mode");
    reveal_strlit("plan");
    reveal_strlit("effort");
    reveal_strlit("type");
    reveal_strlit("reason");
    reveal_strlit("window");
    reveal_strlit("rows");
    reveal_strlit("protocolVersion");
    reveal_strlit("schemaVersion");
    reveal_strlit("skills");
    reveal_strlit("defaultMode");
    reveal_strlit("defaultPlan");
    reveal_strlit("contextWindow");
    reveal_strlit("sessionId");
    reveal_strlit("name");
    reveal_strlit("defaultEffort");
    reveal_strlit("images");
    reveal_strlit("model");
    reveal_strlit("warnings");
    reveal_strlit("context_window");
    assert("initialize"@.len() != "session/new"@.len());
    assert("initialize"@.len() != "session/load"@.len());
    assert("initialize"@.len() != "session/prompt"@.len());
    assert("initialize"@.len() != "session/rename"@.len());
    assert("initialize"@.len() != "session/set_mode"@.len());
    assert("initialize"@.len() != "session/set_plan"@.len());
    assert("initialize"@.len() != "session/set_effort"@.len());
    assert("initialize"@.len() != "session/steer"@.len());
    assert("initialize"@.len() != "session/cancel"@.len());
    assert("initialize"@.len() != "session/reload_config"@.len());
    assert("initialize"@.len() != "session/context"@.len());
    assert("session/new"@.len() != "session/load"@.len());
    assert("session/new"@.len() != "session/prompt"@.len());
    assert("session/new"@.len() != "session/rename"@.len());
    assert("session/new"@.len() != "session/set_mode"@.len());
    assert("session/new"@.len() != "session/set_plan"@.len());
    assert("session/new"@.len() != "session/set_effort"@.len());
    assert("session/new"@.len() != "session/steer"@.len());
    assert("session/new"@.len() != "session/cancel"@.len());
    assert("session/new"@.len() != "session/reload_config"@.len());
    assert("session/new"@.len() != "session/context"@.len());
    assert("session/load"@.len() != "session/prompt"@.len());
    assert("session/load"@.len() != "session/rename"@.len());
    assert("session/load"@.len() != "session/set_mode"@.len());
    assert("session/load"@.len() != "session/set_plan"@.len());
    assert("session/load"@.len() != "session/set_effort"@.len());
    assert("session/load"@.len() != "session/steer"@.len());
    assert("session/load"@.len() != "session/cancel"@.len());
    assert("session/load"@.len() != "session/reload_config"@.len());
    assert("session/load"@.len() != "session/context"@.len());
    assert("session/prompt"@[8] != "session/rename"@[8]);
    assert("session/prompt"@.len() != "session/set_mode"@.len());
    assert("session/prompt"@.len() != "session/set_plan"@.len());
    assert("session/prompt"@.len() != "session/set_effort"@.len());
    assert("session/prompt"@.len() != "session/steer"@.len());
    assert("session/prompt"@[8] != "session/cancel"@[8]);
    assert("session/prompt"@.len() != "session/reload_config"@.len());
    assert("session/prompt"@.len() != "session/context"@.len());
    assert("session/rename"@.len() != "session/set_mode"@.len());
    assert("session/rename"@.len() != "session/set_plan"@.len());
    assert("session/rename"@.len() != "session/set_effort"@.len());
    assert("session/rename"@.len() != "session/steer"@.len());
    assert("session/rename"@[8] != "session/cancel"@[8]);
    assert("session/rename"@.len() != "session/reload_config"@.len());
    assert("session/rename"@.len() != "session/context"@.len());
    assert("session/set_mode"@[12] != "session/set_plan"@[12]);
    assert("session/set_mode"@.len() != "session/set_effort"@.len());
    assert("session/set_mode"@.len() != "session/steer"@.len());
    assert("session/set_mode"@.len() != "session/cancel"@.len());
    assert("session/set_mode"@.len() != "session/reload_config"@.len());
    assert("session/set_mode"@.len() != "session/context"@.len());
    assert("session/set_plan"@.len() != "session/set_effort"@.len());
    assert("session/set_plan"@.len() != "session/steer"@.len());
    assert("session/set_plan"@.len() != "session/cancel"@.len());
    assert("session/set_plan"@.len() != "session/reload_config"@.len());
    assert("session/set_plan"@.len() != "session/context"@.len());
    assert("session/set_effort"@.len() != "session/steer"@.len());
    assert("session/set_effort"@.len() != "session/cancel"@.len());
    assert("session/set_effort"@.len() != "session/reload_config"@.len());
    assert("session/set_effort"@.len() != "session/context"@.len());
    assert("session/steer"@.len() != "session/cancel"@.len());
    assert("session/steer"@.len() != "session/reload_config"@.len());
    assert("session/steer"@.len() != "session/context"@.len());
    assert("session/cancel"@.len() != "session/reload_config"@.len());
    assert("session/cancel"@.len() != "session/context"@.len());
    assert("session/reload_config"@.len() != "session/context"@.len());
    assert("ok"@.len() != "mode"@.len());
    assert("ok"@.len() != "plan"@.len());
    assert("ok"@.len() != "effort"@.len());
    assert("type"@[0] != "mode"@[0]);
    assert("type"@[0] != "plan"@[0]);
    assert("type"@.len() != "effort"@.len());
    assert("type"@.len() != "reason"@.len());
    assert("type"@.len() != "window"@.len());
    assert("type"@[0] != "rows"@[0]);
    assert("window"@.len() != "rows"@.len());
    assert("protocolVersion"@.len() != "schemaVersion"@.len());
    assert("protocolVersion"@.len() != "skills"@.len());
    assert("protocolVersion"@.len() != "defaultMode"@.len());
    assert("protocolVersion"@.len() != "defaultPlan"@.len());
    assert("protocolVersion"@.len() != "contextWindow"@.len());
    assert("schemaVersion"@.len() != "skills"@.len());
    assert("schemaVersion"@.len() != "defaultMode"@.len());
    assert("schemaVersion"@.len() != "defaultPlan"@.len());
    assert("schemaVersion"@[0] != "contextWindow"@[0]);
    assert("skills"@.len() != "defaultMode"@.len());
    assert("skills"@.len() != "defaultPlan"@.len());
    assert("skills"@.len() != "contextWindow"@.len());
    assert("defaultMode"@[7] != "defaultPlan"@[7]);
    assert("defaultMode"@.len() != "contextWindow"@.len());
    assert("defaultPlan"@.len() != "contextWindow"@.len());
    assert("sessionId"@.len() != "name"@.len());
    assert("sessionId"@.len() != "mode"@.len());
    assert("sessionId"@.len() != "plan"@.len());
    assert("sessionId"@.len() != "defaultEffort"@.len());
    assert("sessionId"@.len() != "images"@.len());
    assert("name"@[0] != "mode"@[0]);
    assert("name"@[0] != "plan"@[0]);
    assert("name"@.len() != "defaultEffort"@.len());
    assert("name"@.len() != "images"@.len());
    assert("mode"@[0] != "plan"@[0]);
    assert("mode"@.len() != "defaultEffort"@.len());
    assert("mode"@.len() != "images"@.len());
    assert("plan"@.len() != "defaultEffort"@.len());
    assert("plan"@.len() != "images"@.len());
    assert("defaultEffort"@.len() != "images"@.len());
    assert("ok"@.len() != "model"@.len());
    assert("ok"@.len() != "warnings"@.len());
    assert("model"@.len() != "warnings"@.len());
    assert("ok"@.len() != "sessionId"@.len());
    assert("ok"@.len() != "contextWindow"@.len());
    assert("sessionId"@.len() != "model"@.len());
    assert("sessionId"@.len() != "contextWindow"@.len());
    assert("sessionId"@.len() != "warnings"@.len());
    assert("model"@.len() != "mode"@.len());
    assert("model"@.len() != "plan"@.len());
    assert("model"@.len() != "contextWindow"@.len());
    assert("mode"@.len() != "contextWindow"@.len());
    assert("mode"@.len() != "warnings"@.len());
    assert("plan"@.len() != "contextWindow"@.len());
    assert("plan"@.len() != "warnings"@.len());
    assert("contextWindow"@.len() != "warnings"@.len());
    assert("type"@.len() != "model"@.len());
    assert("type"@.len() != "context_window"@.len());
    assert("type"@.len() != "skills"@.len());
    assert("type"@.len() != "warnings"@.len());
    assert("model"@.len() != "context_window"@.len());
    assert("model"@.len() != "skills"@.len());
    assert("mode"@.len() != "context_window"@.len());
    assert("mode"@.len() != "skills"@.len());
    assert("plan"@.len() != "context_window"@.len());
    assert("plan"@.len() != "skills"@.len());
    assert("context_window"@.len() != "skills"@.len());
    assert("context_window"@.len() != "warnings"@.len());
    assert("skills"@.len() != "warnings"@.len());
}

/// The action sends a response to the request `id` that refuses it in these
/// words.
pub open spec fn refuses(a: ActionV, id: JsonV, words: Seq<char>) -> bool {
    a matches ActionV::Send(f) && field(f, "id"@) == Some(id) && field(f, "result"@) is None
        && field(f, "method"@) is None && (field(f, "error"@) matches Some(e) && text_at(
        e,
        "message"@,
    ) == Some(words))
}

/// The action tells the client of the session `sid` an update of this kind, with
/// the value under `key`.
pub open spec fn tells(a: ActionV, sid: Seq<char>, kind: Seq<char>, key: Seq<char>, value: JsonV) -> bool {
    a matches ActionV::Send(f) && field(f, "id"@) is None && text_at(f, "method"@) == Some(
        "session/update"@,
    ) && (field(f, "params"@) matches Some(p) && text_at(p, "sessionId"@) == Some(sid) && (field(
        p,
        "update"@,
    ) matches Some(u) && text_at(u, "type"@) == Some(kind) && field(u, key) == Some(value)))
}

/// The request has this id, this method and these parameters.
pub open spec fn is_request(msg: JsonV, id: JsonV, method: Seq<char>, params: JsonV) -> bool {
    field(msg, "id"@) == Some(id) && text_at(msg, "method"@) == Some(method) && field(msg, "params"@)
        == Some(params)
}

/// A prompt reaches the engine with its text and its images, and its id waits
/// behind those that wait already; a correction reaches the engine too, and is
/// answered at once. Neither changes anything else.
pub proof fn texts_reach_the_engine(
    c: ConnectionV,
    msg: JsonV,
    id: JsonV,
    params: JsonV,
    text: Seq<char>,
    images: Seq<(Seq<char>, Seq<char>)>,
)
    requires
        c.session is Some,
        text_at(params, "text"@) == Some(text),
        images_of(params) == Ok::<Seq<(Seq<char>, Seq<char>)>, Seq<char>>(images),
    ensures
        is_request(msg, id, "session/prompt"@, params) ==> request_effect(c, msg) == (
            ConnectionV { prompts: c.prompts + seq![id], ..c },
            seq![ActionV::Prompt(text, images)],
            CallV::Nothing,
        ),
        is_request(msg, id, "session/steer"@, params) ==> ({
            let (next, acts, call) = request_effect(c, msg);
            &&& next == c
            &&& call == CallV::Nothing
            &&& acts.len() == 2
            &&& acts[0] == ActionV::Steer(text, images)
            &&& acts[1] matches ActionV::Send(f) && field(f, "id"@) == Some(id) && (field(
                f,
                "result"@,
            ) matches Some(r) && bool_at(r, "queued"@) == Some(true))
        }),
{
    broadcast use {put_reads, nothing_reads};

    frame_names_differ();
    request_names_differ();
    assert(c.prompts.push(id) =~= c.prompts + seq![id]);
}

/// What a client sets takes effect in the engine, is acknowledged under the
/// request's id, and is told to the session's client, with the value that takes
/// effect: a build that enforces asking says `ask` where `bypass` was asked for.
pub proof fn settings_take_effect_and_are_told(
    c: ConnectionV,
    msg: JsonV,
    id: JsonV,
    params: JsonV,
    mode: PermissionMode,
    plan: bool,
    effort: Option<Effort>,
    word: Seq<char>,
)
    requires
        c.session is Some,
    ensures
        ({
            let (next, acts, call) = request_effect(c, msg);
            let sid = handle_in(c);
            let settled = if c.strict && mode == PermissionMode::Bypass {
                JsonV::Str("ask"@)
            } else {
                JsonV::Str(mode.word())
            };
            let level = match effort {
                Some(e) => JsonV::Str(e.word()),
                None => JsonV::Null,
            };
            &&& is_request(msg, id, "session/set_mode"@, params) && text_at(params, "mode"@) == Some(
                word,
            ) && mode_of(word) == Some(mode) && !is_plan_word(word) ==> {
                &&& next == c && call == CallV::Nothing
                &&& acts.len() == 3
                &&& acts[0] == ActionV::SetMode(mode)
                &&& acts[1] matches ActionV::Send(f) && field(f, "id"@) == Some(id) && (field(
                    f,
                    "result"@,
                ) matches Some(r) && bool_at(r, "ok"@) == Some(true) && field(r, "mode"@) == Some(
                    settled,
                ))
                &&& tells(acts[2], sid, "mode_changed"@, "mode"@, settled)
            }
            &&& (is_request(msg, id, "session/set_plan"@, params) && bool_at(params, "plan"@)
                == Some(plan)) || (plan && is_request(msg, id, "session/set_mode"@, params) && text_at(
                params,
                "mode"@,
            ) == Some(word) && is_plan_word(word)) ==> {
                &&& next == c && call == CallV::Nothing
                &&& acts.len() == 3
                &&& acts[0] == ActionV::SetPlan(plan)
                &&& acts[1] matches ActionV::Send(f) && field(f, "id"@) == Some(id) && (field(
                    f,
                    "result"@,
                ) matches Some(r) && bool_at(r, "ok"@) == Some(true) && bool_at(r, "plan"@)
                    == Some(plan))
                &&& tells(acts[2], sid, "plan_changed"@, "plan"@, JsonV::Bool(plan))
            }
            &&& is_request(msg, id, "session/set_effort"@, params) && text_at(params, "effort"@)
                == Some(word) && effort_of(word) == Some(effort) ==> {
                &&& next == c && call == CallV::Nothing
                &&& acts.len() == 3
                &&& acts[0] == ActionV::SetEffort(effort)
                &&& acts[1] matches ActionV::Send(f) && field(f, "id"@) == Some(id) && (field(
                    f,
                    "result"@,
                ) matches Some(r) && bool_at(r, "ok"@) == Some(true) && field(r, "effort"@)
                    == Some(level))
                &&& tells(acts[2], sid, "effort_changed"@, "effort"@, level)
            }
        }),
{
    broadcast use {put_reads, nothing_reads};

    frame_names_differ();
    request_names_differ();
}

/// A name is handed to the engine without the white space at its ends, and
/// acknowledged; a cancellation interrupts the turn and is acknowledged; a
/// request for the context waits for what fills it, and one for a reload waits
/// for the configuration. None of these changes the connection.
pub proof fn other_requests_do_what_they_say(
    c: ConnectionV,
    msg: JsonV,
    id: JsonV,
    params: JsonV,
    name: Seq<char>,
)
    requires
        c.session is Some,
    ensures
        ({
            let (next, acts, call) = request_effect(c, msg);
            &&& is_request(msg, id, "session/rename"@, params) && text_at(params, "name"@) == Some(
                name,
            ) && 1 <= trimmed(name).len() <= 64 ==> {
                &&& next == c && call == CallV::Nothing
                &&& acts.len() == 2
                &&& acts[0] == ActionV::Rename(trimmed(name))
                &&& acts[1] matches ActionV::Send(f) && field(f, "id"@) == Some(id) && field(
                    f,
                    "error"@,
                ) is None
            }
            &&& is_request(msg, id, "session/cancel"@, params) ==> {
                &&& next == c && call == CallV::Nothing
                &&& acts.len() == 2
                &&& acts[0] == ActionV::Interrupt
                &&& acts[1] matches ActionV::Send(f) && field(f, "id"@) == Some(id) && (field(
                    f,
                    "result"@,
                ) matches Some(r) && bool_at(r, "cancelled"@) == Some(true))
            }
            &&& is_request(msg, id, "session/context"@, params) ==> next == c && acts.len() == 0
                && call == CallV::Context(id)
            &&& is_request(msg, id, "session/reload_config"@, params) && c.can_reload ==> next == c
                && acts.len() == 0 && call == CallV::Reload(id)
        }),
{
    broadcast use {put_reads, nothing_reads};

    frame_names_differ();
    request_names_differ();
}

/// Without a session, what needs one is refused under the request's id, and
/// nothing is asked of the engine; so is a method that there is not, which the
/// refusal names, and a reload where there is none.
pub proof fn requests_without_a_session_are_refused(
    c: ConnectionV,
    msg: JsonV,
    id: JsonV,
    method: Seq<char>,
    params: JsonV,
)
    requires
        is_request(msg, id, method, params),
    ensures
        ({
            let (next, acts, call) = request_effect(c, msg);
            &&& c.session is None && (method == "session/prompt"@ || method == "session/steer"@
                || method == "session/rename"@ || method == "session/set_mode"@ || method
                == "session/set_plan"@ || method == "session/set_effort"@) ==> next == c && call
                == CallV::Nothing && acts.len() == 1 && refuses(
                acts[0],
                id,
                "no session — call session/new first"@,
            )
            &&& c.session is None && method == "session/context"@ ==> next == c && call
                == CallV::Nothing && acts.len() == 1 && refuses(
                acts[0],
                id,
                "session/context requires an open session"@,
            )
            &&& !c.can_reload && method == "session/reload_config"@ ==> next == c && call
                == CallV::Nothing && acts.len() == 1 && refuses(
                acts[0],
                id,
                "session/reload_config is not supported on this connection"@,
            )
            &&& method != "initialize"@ && method != "session/new"@ && method != "session/load"@
                && method != "session/prompt"@ && method != "session/steer"@ && method
                != "session/rename"@ && method != "session/set_mode"@ && method
                != "session/set_plan"@ && method != "session/set_effort"@ && method
                != "session/cancel"@ && method != "session/reload_config"@ && method
                != "session/context"@ ==> next == c && call == CallV::Nothing && acts.len() == 1
                && refuses(acts[0], id, "unknown method `"@ + method + "`"@)
        }),
{
    broadcast use {put_reads, nothing_reads};

    frame_names_differ();
    request_names_differ();
}

/// A request whose parameters are wrong is refused under its id, and nothing is
/// asked of the engine.
pub proof fn wrong_parameters_are_refused(c: ConnectionV, msg: JsonV, id: JsonV, params: JsonV)
    requires
        c.session is Some,
    ensures
        ({
            let (next, acts, call) = request_effect(c, msg);
            let alone = next == c && call == CallV::Nothing && acts.len() == 1;
            &&& is_request(msg, id, "session/prompt"@, params) ==> {
                &&& text_at(params, "text"@) is None ==> alone && refuses(
                    acts[0],
                    id,
                    "session/prompt requires params.text"@,
                )
                &&& text_at(params, "text"@) is Some && images_of(params) is Err ==> alone
                    && refuses(acts[0], id, "session/prompt: "@ + images_of(params)->Err_0)
            }
            &&& is_request(msg, id, "session/steer"@, params) ==> {
                &&& text_at(params, "text"@) is None ==> alone && refuses(
                    acts[0],
                    id,
                    "session/steer requires params.text"@,
                )
                &&& text_at(params, "text"@) is Some && images_of(params) is Err ==> alone
                    && refuses(acts[0], id, "session/steer: "@ + images_of(params)->Err_0)
            }
            &&& is_request(msg, id, "session/rename"@, params) && (text_at(params, "name"@) is None
                || trimmed(text_at(params, "name"@)->0).len() == 0 || trimmed(
                text_at(params, "name"@)->0,
            ).len() > 64) ==> alone && refuses(
                acts[0],
                id,
                "session/rename requires params.name (1–64 chars after trimming)"@,
            )
            &&& is_request(msg, id, "session/set_plan"@, params) && bool_at(params, "plan"@) is None
                ==> alone && refuses(
                acts[0],
                id,
                "session/set_plan requires params.plan (a boolean)"@,
            )
            &&& is_request(msg, id, "session/set_mode"@, params) && (text_at(params, "mode"@)
                is None || !is_plan_word(text_at(params, "mode"@)->0) && mode_of(
                text_at(params, "mode"@)->0,
            ) is None) ==> alone && refuses(
                acts[0],
                id,
                "session/set_mode requires params.mode (ask | bypass | dontask)"@,
            )
            &&& is_request(msg, id, "session/set_effort"@, params) && (text_at(params, "effort"@)
                is None || effort_of(text_at(params, "effort"@)->0) is None) ==> alone && refuses(
                acts[0],
                id,
                "session/set_effort requires params.effort (low | medium | high | xhigh | max | default)"@,
            )
        }),
{
    broadcast use {put_reads, nothing_reads};

    frame_names_differ();
    request_names_differ();
}

/// `initialize` is answered with the version that is spoken, and with what the
/// server offers.
pub proof fn initializing_shows_what_is_offered(c: ConnectionV, msg: JsonV, id: JsonV)
    requires
        field(msg, "id"@) == Some(id),
        text_at(msg, "method"@) == Some("initialize"@),
    ensures
        ({
            let (next, acts, call) = request_effect(c, msg);
            &&& next == c && call == CallV::Nothing && acts.len() == 1
            &&& acts[0] matches ActionV::Send(f) && field(f, "id"@) == Some(id) && (field(
                f,
                "result"@,
            ) matches Some(r) && text_at(r, "protocolVersion"@) == Some("0.1"@) && uint_at(
                r,
                "schemaVersion"@,
            ) == Some(1u64) && text_at(r, "defaultMode"@) == Some(c.info.default_mode) && bool_at(
                r,
                "defaultPlan"@,
            ) == Some(c.info.default_plan) && uint_at(r, "contextWindow"@) == Some(
                c.info.context_window,
            ) && (field(r, "skills"@) matches Some(JsonV::Arr(v)) && v.len() == c.info.skills.len()))
        }),
{
    broadcast use {put_reads, nothing_reads};

    frame_names_differ();
    request_names_differ();
}

/// A request for a session opens what it asks for: a new one, or the one it
/// names, which goes on where it was left and with the name given; a fork is
/// never resumed.
pub proof fn sessions_are_opened_as_asked(
    c: ConnectionV,
    msg: JsonV,
    id: JsonV,
    params: JsonV,
    sid: Seq<char>,
    items: usize,
)
    requires
        field(params, "name"@) is None,
    ensures
        ({
            let (next, acts, call) = request_effect(c, msg);
            let plain = field(params, "keepItems"@) is None && field(params, "keepTurns"@) is None;
            &&& is_request(msg, id, "session/new"@, params) ==> next == c && acts.len() == 0
                && call == CallV::Open(SessionSpecV::New(None), id, false)
            &&& is_request(msg, id, "session/load"@, params) && text_at(params, "sessionId"@)
                == Some(sid) && plain && bool_at(params, "fork"@) != Some(true) ==> next == c
                && acts.len() == 0 && call == CallV::Open(SessionSpecV::Load(sid, None), id, true)
            &&& is_request(msg, id, "session/load"@, params) && text_at(params, "sessionId"@)
                == Some(sid) && plain && bool_at(params, "fork"@) == Some(true) ==> next == c
                && acts.len() == 0 && call == CallV::Open(
                SessionSpecV::Fork(sid, KeepSpec::All, None),
                id,
                false,
            )
            &&& is_request(msg, id, "session/load"@, params) && text_at(params, "sessionId"@)
                == Some(sid) && uint_at(params, "keepItems"@) == Some(items as u64) && field(
                params,
                "keepTurns"@,
            ) is None && bool_at(params, "fork"@) == Some(true) ==> next == c && acts.len() == 0
                && call == CallV::Open(
                SessionSpecV::Fork(sid, KeepSpec::Items(items), None),
                id,
                false,
            )
        }),
{
    request_names_differ();
}

/// A session that was opened takes the place of the one before: it gets a handle
/// that no session had, the old one is retired, a loaded one goes on where it
/// was left, and the request is answered last, with the handle and with what
/// the session holds.
pub proof fn opened_sessions_take_over(
    c: ConnectionV,
    id: JsonV,
    resume: bool,
    open: SessionOpen,
)
    requires
        c.next_id < MAX_SESSIONS,
    ensures
        ({
            let (next, acts) = opened_effect(c, id, resume, Ok(open));
            let k: int = if c.session is Some {
                1
            } else {
                0
            };
            &&& next.session matches Some((sid, store)) && sid == "acp-"@ + decimal_of(
                c.next_id as nat,
            ) && store == open.session_id@
            &&& next.next_id == c.next_id + 1
            &&& next.info == c.info && next.can_reload == c.can_reload && next.strict == c.strict
            &&& acts.len() == k + (if resume {
                2int
            } else {
                1
            })
            &&& c.session is Some ==> acts[0] == ActionV::Retire
            &&& resume ==> acts[k] == ActionV::Continue
            &&& acts.last() matches ActionV::Send(f) && field(f, "id"@) == Some(id) && field(
                f,
                "error"@,
            ) is None && (field(f, "result"@) matches Some(r) && text_at(r, "sessionId"@) == Some(
                handle_in(next),
            ) && text_at(r, "name"@) == opt_text(open.name) && text_at(r, "mode"@) == Some(
                open.mode@,
            ) && bool_at(r, "plan"@) == Some(open.plan) && text_at(r, "defaultEffort"@) == opt_text(
                open.default_effort,
            ) && bool_at(r, "images"@) == Some(true))
        }),
{
    broadcast use {put_reads, nothing_reads};

    frame_names_differ();
    request_names_differ();
}

/// A session that could not be opened is refused in the opener's own words.
pub proof fn failed_openings_are_told(c: ConnectionV, id: JsonV, resume: bool, error: String)
    ensures
        ({
            let acts = opened_effect(c, id, resume, Err(error)).1;
            acts.len() == 1 && refuses(acts[0], id, error@)
        }),
{
    broadcast use {put_reads, nothing_reads};

    frame_names_differ();
}

/// A configuration that was read again is what is offered from now on. A live
/// session is opened again from its own log before the request is answered;
/// without one the answer names the model.
pub proof fn reloads_take_effect(
    c: ConnectionV,
    id: JsonV,
    info: ServerInfo,
    warnings: Vec<String>,
)
    ensures
        ({
            let (next, acts, call) = reloaded_effect(c, id, Ok((info, warnings)));
            &&& next == (ConnectionV { info: info@, ..c })
            &&& c.session matches Some((_, store)) ==> acts.len() == 0 && call == CallV::Reopen(
                SessionSpecV::Load(store, None),
                id,
                texts(warnings@),
            )
            &&& c.session is None ==> call == CallV::Nothing && acts.len() == 1 && (
            acts[0] matches ActionV::Send(f) && field(f, "id"@) == Some(id) && (field(
                f,
                "result"@,
            ) matches Some(r) && bool_at(r, "ok"@) == Some(true) && text_at(r, "model"@) == Some(
                info.model@,
            ) && field(r, "warnings"@) == Some(text_values(texts(warnings@)))))
        }),
{
    broadcast use {put_reads, nothing_reads};

    frame_names_differ();
    request_names_differ();
}

/// A configuration that could not be read is told under the request's id, last,
/// and before that to a session's client.
pub proof fn failed_reloads_are_told(c: ConnectionV, id: JsonV, error: String)
    ensures
        ({
            let acts = reloaded_effect(c, id, Err(error)).1;
            &&& refuses(acts.last(), id, "config reload failed: "@ + error@)
            &&& c.session is None ==> acts.len() == 1
            &&& c.session is Some ==> acts.len() == 2 && tells(
                acts[0],
                handle_in(c),
                "config_reload_failed"@,
                "reason"@,
                JsonV::Str(error@),
            )
        }),
{
    broadcast use {put_reads, nothing_reads};

    frame_names_differ();
    request_names_differ();
}

/// A live session that was opened again takes the place of the old one under a
/// new handle; the answer and the update that follows it give what is in force
/// now.
pub proof fn reopened_sessions_take_over(
    c: ConnectionV,
    id: JsonV,
    warnings: Seq<Seq<char>>,
    open: SessionOpen,
)
    requires
        c.next_id < MAX_SESSIONS,
        c.session is Some,
    ensures
        ({
            let (next, acts) = reopened_effect(c, id, warnings, Ok(open));
            let sid = "acp-"@ + decimal_of(c.next_id as nat);
            &&& next.session == Some((sid, open.session_id@))
            &&& next.next_id == c.next_id + 1
            &&& next.info == c.info
            &&& acts.len() == 3
            &&& acts[0] == ActionV::Retire
            &&& acts[1] matches ActionV::Send(f) && field(f, "id"@) == Some(id) && field(
                f,
                "error"@,
            ) is None && (field(f, "result"@) matches Some(r) && bool_at(r, "ok"@) == Some(true)
                && text_at(r, "sessionId"@) == Some(sid) && text_at(r, "model"@) == Some(
                c.info.model,
            ) && text_at(r, "mode"@) == Some(open.mode@) && bool_at(r, "plan"@) == Some(open.plan)
                && uint_at(r, "contextWindow"@) == Some(c.info.context_window) && field(
                r,
                "warnings"@,
            ) == Some(text_values(warnings)))
            &&& tells(acts[2], sid, "config_reloaded"@, "model"@, JsonV::Str(c.info.model))
            &&& tells(acts[2], sid, "config_reloaded"@, "mode"@, JsonV::Str(open.mode@))
            &&& tells(acts[2], sid, "config_reloaded"@, "plan"@, JsonV::Bool(open.plan))
            &&& tells(
                acts[2],
                sid,
                "config_reloaded"@,
                "context_window"@,
                JsonV::Uint(c.info.context_window),
            )
            &&& tells(acts[2], sid, "config_reloaded"@, "skills"@, skill_values(c.info.skills))
            &&& tells(acts[2], sid, "config_reloaded"@, "warnings"@, text_values(warnings))
        }),
{
    broadcast use {put_reads, nothing_reads};

    frame_names_differ();
    request_names_differ();
}

/// What fills the context is acknowledged under the request's id and told to the
/// session's client as it was measured; a session that is gone is refused.
pub proof fn context_reports_are_told(c: ConnectionV, id: JsonV, window: Json, rows: Json)
    requires
        c.session is Some,
    ensures
        ({
            let acts = context_effect(c, id, Some((window, rows)));
            &&& acts.len() == 2
            &&& acts[0] matches ActionV::Send(f) && field(f, "id"@) == Some(id) && (field(
                f,
                "result"@,
            ) matches Some(r) && bool_at(r, "ok"@) == Some(true))
            &&& tells(acts[1], handle_in(c), "context_report"@, "window"@, window@)
            &&& tells(acts[1], handle_in(c), "context_report"@, "rows"@, rows@)
        }),
        ({
            let acts = context_effect(c, id, None);
            acts.len() == 1 && refuses(acts[0], id, "session/context: the session is gone"@)
        }),
{
    broadcast use {put_reads, nothing_reads};

    frame_names_differ();
    request_names_differ();
}

proof fn minus_filters(v: Seq<u64>, gone: Seq<u64>, keep: spec_fn(u64) -> bool)
    requires
        forall|x: u64| #[trigger] keep(x) == !gone.contains(x),
    ensures
        minus(v, gone) == v.filter(keep),
    decreases v.len(),
{
    reveal(Seq::filter);
    if v.len() > 0 {
        minus_filters(v.drop_last(), gone, keep);
    }
}

/// A response reaches the request of its id: that one waits no longer and all
/// others do. What it grants is what it says: `allow: true` and no answer in the
/// tool's place allows, `allow: false` refuses a host, and without a result
/// nobody answered.
pub proof fn responses_reach_their_request(c: ConnectionV, msg: JsonV, id: u64)
    requires
        c.wf(),
        uint_at(msg, "id"@) == Some(id),
    ensures
        ({
            let (next, answer) = response_effect(c, msg);
            let others = |x: u64| x != id;
            let said = field(msg, "result"@);
            &&& next == (ConnectionV {
                asks: c.asks.filter(others),
                questions: c.questions.filter(others),
                egress: c.egress.filter(others),
                ..c
            })
            &&& c.asks.contains(id) ==> (answer matches AnswerV::Ask(to, reply) && to == id && (
            reply matches AskReplyV::Allow ==> said is Some && bool_at(said->0, "allow"@) == Some(
                true,
            ) && bool_at(said->0, "secretReads"@) != Some(true)) && (reply
                matches AskReplyV::AllowWithSecretReads ==> said is Some && bool_at(
                said->0,
                "allow"@,
            ) == Some(true) && bool_at(said->0, "secretReads"@) == Some(true)) && (reply
                matches AskReplyV::AllowEdited(j) ==> said is Some && field(said->0, "input"@)
                == Some(j)) && (reply matches AskReplyV::Respond(t) ==> said is Some && text_at(
                said->0,
                "respond"@,
            ) == Some(t)) && (reply matches AskReplyV::Deny(why) ==> said is None || (text_at(
                said->0,
                "message"@,
            ) == why && bool_at(said->0, "allow"@) != Some(true) && field(said->0, "input"@) is None
                && text_at(said->0, "respond"@) is None)))
            &&& c.egress.contains(id) ==> (answer matches AnswerV::Egress(to, d) && to == id && d
                == (if said is Some && bool_at(said->0, "allow"@) == Some(true) {
                EgressDecision::Allow
            } else if said is Some && bool_at(said->0, "allow"@) == Some(false) {
                EgressDecision::Deny
            } else {
                EgressDecision::NoAnswer
            }))
            &&& c.questions.contains(id) ==> (answer matches AnswerV::Question(to, _) && to == id)
            &&& !c.asks.contains(id) && !c.egress.contains(id) && !c.questions.contains(id)
                ==> answer == AnswerV::Nothing
        }),
{
    let others = |x: u64| x != id;
    let one = seq![id];
    assert forall|x: u64| #[trigger] others(x) == !one.contains(x) by {
        assert(one[0] == id);
    }
    minus_filters(c.asks, one, others);
    minus_filters(c.questions, one, others);
    minus_filters(c.egress, one, others);
    filter_keeps_all(c.asks, id);
    filter_keeps_all(c.questions, id);
    filter_keeps_all(c.egress, id);
    if c.asks.contains(id) {
        let i = choose|i: int| 0 <= i < c.asks.len() && c.asks[i] == id;
        if c.questions.contains(id) {
            let k = choose|k: int| 0 <= k < c.questions.len() && c.questions[k] == id;
            assert(c.asks[i] != c.questions[k]);
        }
        if c.egress.contains(id) {
            let k = choose|k: int| 0 <= k < c.egress.len() && c.egress[k] == id;
            assert(c.asks[i] != c.egress[k]);
        }
    }
    if c.questions.contains(id) && c.egress.contains(id) {
        let i = choose|i: int| 0 <= i < c.questions.len() && c.questions[i] == id;
        let k = choose|k: int| 0 <= k < c.egress.len() && c.egress[k] == id;
        assert(c.questions[i] != c.egress[k]);
    }
}

proof fn filter_keeps_all(v: Seq<u64>, id: u64)
    ensures
        !v.contains(id) ==> v.filter(|x: u64| x != id) == v,
    decreases v.len(),
{
    reveal(Seq::filter);
    if v.len() > 0 && !v.contains(id) {
        let t = v.drop_last();
        assert forall|k: int| 0 <= k < t.len() implies t[k] != id by {
            assert(v[k] != id);
        }
        filter_keeps_all(t, id);
        assert(v[v.len() - 1] != id);
        assert(v =~= t.push(v.last()));
    } else if v.len() == 0 {
        assert(v.filter(|x: u64| x != id) =~= v);
    }
}

/// The end of a turn drops the requests to the client that nobody waits for any
/// more, and no others.
pub proof fn turn_ends_drop_what_is_closed(
    c: ConnectionV,
    outcome: JsonV,
    usage: JsonV,
    closed: Seq<u64>,
)
    ensures
        ({
            let next = event_effect(
                c,
                EngineEventV::TurnDone { outcome, usage, mispredictions: 0 },
                closed,
            ).0;
            let open = |x: u64| !closed.contains(x);
            &&& next.asks == c.asks.filter(open)
            &&& next.questions == c.questions.filter(open)
            &&& next.egress == c.egress.filter(open)
            &&& next.session == c.session
            &&& next.req_id == c.req_id
        }),
{
    let open = |x: u64| !closed.contains(x);
    minus_filters(c.asks, closed, open);
    minus_filters(c.questions, closed, open);
    minus_filters(c.egress, closed, open);
}

/// Sessions do not share the ids of their requests: those of the session with the
/// number `n` are counted from `n` million on, so that no late answer to one session is
/// taken for an answer to the next.
pub proof fn sessions_do_not_share_request_ids(
    c: ConnectionV,
    store: Seq<char>,
    e: EngineEventV,
    closed: Seq<u64>,
)
    requires
        c.next_id < MAX_SESSIONS,
        e is Ask || e is Question || e is EgressAsk,
    ensures
        installed(c, store).req_id == c.next_id * 1_000_000,
        installed(c, store).next_id == c.next_id + 1,
        event_effect(installed(c, store), e, closed).1 matches Some(id) && id == c.next_id
            * 1_000_000 + 1,
        installed(c, store).asks.len() == 0 && installed(c, store).questions.len() == 0
            && installed(c, store).egress.len() == 0,
{
}

} // verus!
