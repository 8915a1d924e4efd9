//! `hotl acp`: a JSON-RPC line protocol over one connection.
//!
//! One session per connection. Model output and tool status arrive as
//! `session/update` notifications; permission asks, questions and egress asks
//! are requests to the client. Here is what the messages mean and how frames are
//! written; what a connection does with them stands in `connection`.
use crate::engine::{AskReply, AskReplyV, EgressDecision, QuestionAnswer, QuestionAnswerV};
use crate::json::{
    array_at, bool_at, field, no_members, nothing_reads, put_reads, text_at, uint_at, views, Json, JsonV,
};
use crate::session_server::UPDATE_SCHEMA_VERSION;
use crate::text::{opt_str, opt_text, same, texts, trim, trimmed};
use vstd::prelude::*;
use vstd::string::*;

verus! {

/// The protocol version that `initialize` answers.
pub const PROTOCOL_VERSION: &'static str = "0.1";

/// The answer that a permission result gives: a `respond` text answers as the
/// tool, an `input` allows with that input, `allow: true` allows (with
/// `secretReads: true` also lifting the credential read-deny), and anything
/// else denies.
pub open spec fn ask_reply_of(result: Option<JsonV>) -> AskReplyV {
    match result {
        None => AskReplyV::Deny(None),
        Some(r) => match text_at(r, "respond"@) {
            Some(content) => AskReplyV::Respond(content),
            None => match field(r, "input"@) {
                Some(input) => AskReplyV::AllowEdited(input),
                None => if bool_at(r, "allow"@) == Some(true) {
                    if bool_at(r, "secretReads"@) == Some(true) {
                        AskReplyV::AllowWithSecretReads
                    } else {
                        AskReplyV::Allow
                    }
                } else {
                    AskReplyV::Deny(text_at(r, "message"@))
                },
            },
        },
    }
}

/// The view of an optional value.
pub open spec fn opt_view(o: Option<&Json>) -> Option<JsonV> {
    match o {
        Some(j) => Some(j@),
        None => None,
    }
}

/// Maps a client's permission result to an answer.
pub fn ask_reply_from_result(result: Option<&Json>) -> (r: AskReply)
    ensures
        r@ == ask_reply_of(opt_view(result)),
{
    let r = match result {
        None => {
            return AskReply::Deny { message: None };
        },
        Some(r) => r,
    };
    if let Some(content) = r.text_field("respond") {
        return AskReply::Respond { content: content.to_owned() };
    }
    if let Some(input) = r.get("input") {
        return AskReply::AllowEdited { input: input.clone() };
    }
    if r.bool_field("allow") == Some(true) {
        return if r.bool_field("secretReads") == Some(true) {
            AskReply::AllowWithSecretReads
        } else {
            AskReply::Allow
        };
    }
    AskReply::Deny {
        message: match r.text_field("message") {
            Some(m) => Some(m.to_owned()),
            None => None,
        },
    }
}

/// The answer that an egress result gives: its `allow` flag, and nobody's
/// where there is none.
pub open spec fn egress_decision_of(result: Option<JsonV>) -> EgressDecision {
    match result {
        None => EgressDecision::NoAnswer,
        Some(r) => match bool_at(r, "allow"@) {
            Some(true) => EgressDecision::Allow,
            Some(false) => EgressDecision::Deny,
            None => EgressDecision::NoAnswer,
        },
    }
}

/// Maps a client's egress result to an answer.
pub fn egress_decision_from_result(result: Option<&Json>) -> (r: EgressDecision)
    ensures
        r == egress_decision_of(opt_view(result)),
{
    match result {
        None => EgressDecision::NoAnswer,
        Some(r) => match r.bool_field("allow") {
            Some(true) => EgressDecision::Allow,
            Some(false) => EgressDecision::Deny,
            None => EgressDecision::NoAnswer,
        },
    }
}

/// The texts among the first `n` values.
pub open spec fn texts_among(v: Seq<JsonV>, n: nat) -> Seq<Seq<char>>
    decreases n,
{
    if n == 0 {
        Seq::empty()
    } else {
        match v[n - 1] {
            JsonV::Str(s) => texts_among(v, (n - 1) as nat).push(s),
            _ => texts_among(v, (n - 1) as nat),
        }
    }
}

/// The answer that a question result gives: a `freeText`, else the texts of
/// `selected` where there are any, else nobody's.
pub open spec fn question_answer_of(result: Option<JsonV>) -> QuestionAnswerV {
    match result {
        None => QuestionAnswerV::NoHuman,
        Some(r) => match text_at(r, "freeText"@) {
            Some(t) => QuestionAnswerV::FreeText(t),
            None => match array_at(r, "selected"@) {
                Some(v) => if texts_among(v, v.len()).len() > 0 {
                    QuestionAnswerV::Selected(texts_among(v, v.len()))
                } else {
                    QuestionAnswerV::NoHuman
                },
                None => QuestionAnswerV::NoHuman,
            },
        },
    }
}

/// Maps a client's question result to an answer.
pub fn question_answer_from_result(result: Option<&Json>) -> (r: QuestionAnswer)
    ensures
        r@ == question_answer_of(opt_view(result)),
{
    let r = match result {
        None => {
            return QuestionAnswer::NoHuman;
        },
        Some(r) => r,
    };
    if let Some(t) = r.text_field("freeText") {
        return QuestionAnswer::FreeText(t.to_owned());
    }
    if let Some(arr) = r.array_field("selected") {
        let ghost all = views(arr@);
        let mut labels: Vec<String> = Vec::new();
        assert(texts(labels@) =~= Seq::empty());
        let mut i: usize = 0;
        while i < arr.len()
            invariant
                0 <= i <= arr.len(),
                all == views(arr@),
                texts(labels@) == texts_among(all, i as nat),
            decreases arr.len() - i,
        {
            assert(all[i as int] == arr@[i as int]@);
            if let Some(s) = arr[i].as_str() {
                let ghost before = texts(labels@);
                labels.push(s.to_owned());
                assert(texts(labels@) =~= before.push(s@));
            }
            i = i + 1;
        }
        assert(texts(labels@).len() == labels@.len());
        if labels.len() > 0 {
            return QuestionAnswer::Selected(labels);
        }
    }
    QuestionAnswer::NoHuman
}

/// No malformed result is a grant: an answer allows something only where the
/// result says `allow: true` or gives an input, an egress answer only where it
/// says `allow: true`.
pub proof fn malformed_results_never_grant(result: Option<JsonV>)
    ensures
        ask_reply_of(result) is Allow || ask_reply_of(result) is AllowWithSecretReads ==> result
            is Some && bool_at(result->0, "allow"@) == Some(true),
        ask_reply_of(result) is AllowWithSecretReads ==> bool_at(result->0, "secretReads"@) == Some(
            true,
        ),
        ask_reply_of(result) is AllowEdited ==> result is Some && field(result->0, "input"@) is Some,
        egress_decision_of(result) == EgressDecision::Allow ==> result is Some && bool_at(
            result->0,
            "allow"@,
        ) == Some(true),
        result is None ==> ask_reply_of(result) == AskReplyV::Deny(None) && egress_decision_of(
            result,
        ) == EgressDecision::NoAnswer && question_answer_of(result) == QuestionAnswerV::NoHuman,
{
}

/// How much of a forked-from session the fork keeps.
#[derive(Debug, Clone, Copy, PartialEq, Eq, Structural)]
pub enum KeepSpec {
    All,
    Items(usize),
    Turns(usize),
}

/// What a client asked to be opened.
#[derive(Debug, PartialEq, Eq)]
pub enum SessionSpec {
    New { name: Option<String> },
    Load { session_id: String, name: Option<String> },
    /// A new session seeded with another's projection, or a prefix of it.
    Fork { session_id: String, keep: KeepSpec, name: Option<String> },
}

/// The view of a [`SessionSpec`].
#[verifier::ext_equal]
pub enum SessionSpecV {
    New(Option<Seq<char>>),
    Load(Seq<char>, Option<Seq<char>>),
    Fork(Seq<char>, KeepSpec, Option<Seq<char>>),
}

impl View for SessionSpec {
    type V = SessionSpecV;

    open spec fn view(&self) -> SessionSpecV {
        match *self {
            SessionSpec::New { name } => SessionSpecV::New(opt_text(name)),
            SessionSpec::Load { session_id, name } => SessionSpecV::Load(
                session_id@,
                opt_text(name),
            ),
            SessionSpec::Fork { session_id, keep, name } => SessionSpecV::Fork(
                session_id@,
                keep,
                opt_text(name),
            ),
        }
    }
}

/// What an opened session reports: its display name, its effective mode and
/// plan overlay, its starting effort, and the id of its log.
#[derive(Debug)]
pub struct SessionOpen {
    pub name: Option<String>,
    pub mode: String,
    pub plan: bool,
    pub default_effort: Option<String>,
    pub session_id: String,
}

/// One skill as `initialize` advertises it.
#[derive(Debug)]
pub struct SkillInfo {
    pub name: String,
    pub description: String,
}

/// What a connection advertises before any session exists.
#[derive(Debug)]
pub struct ServerInfo {
    pub skills: Vec<SkillInfo>,
    pub default_mode: String,
    pub default_plan: bool,
    pub context_window: u64,
    pub model: String,
}

/// The view of a [`ServerInfo`].
#[verifier::ext_equal]
pub struct ServerInfoV {
    pub skills: Seq<(Seq<char>, Seq<char>)>,
    pub default_mode: Seq<char>,
    pub default_plan: bool,
    pub context_window: u64,
    pub model: Seq<char>,
}

/// The views of skills: name and description.
pub open spec fn skills_view(v: Seq<SkillInfo>) -> Seq<(Seq<char>, Seq<char>)> {
    Seq::new(v.len(), |i: int| (v[i].name@, v[i].description@))
}

impl View for ServerInfo {
    type V = ServerInfoV;

    open spec fn view(&self) -> ServerInfoV {
        ServerInfoV {
            skills: skills_view(self.skills@),
            default_mode: self.default_mode@,
            default_plan: self.default_plan,
            context_window: self.context_window,
            model: self.model@,
        }
    }
}

/// The roster as JSON.
pub open spec fn skill_values(v: Seq<(Seq<char>, Seq<char>)>) -> JsonV {
    JsonV::Arr(
        Seq::new(
            v.len(),
            |i: int|
                no_members().put("name"@, JsonV::Str(v[i].0)).put(
                    "description"@,
                    JsonV::Str(v[i].1),
                ),
        ),
    )
}

pub(crate) fn skills_json(v: &Vec<SkillInfo>) -> (r: Json)
    ensures
        r@ == skill_values(skills_view(v@)),
{
    let ghost all = skill_values(skills_view(v@))->Arr_0;
    let mut out: Vec<Json> = Vec::new();
    let mut i: usize = 0;
    while i < v.len()
        invariant
            0 <= i <= v.len(),
            all == skill_values(skills_view(v@))->Arr_0,
            views(out@) == all.take(i as int),
        decreases v.len() - i,
    {
        let j = Json::object().with("name", Json::text(v[i].name.as_str())).with(
            "description",
            Json::text(v[i].description.as_str()),
        );
        let ghost before = views(out@);
        out.push(j);
        assert(views(out@) =~= before.push(j@));
        assert(all.take(i + 1) =~= all.take(i as int).push(all[i as int]));
        i = i + 1;
    }
    assert(all.take(i as int) =~= all);
    Json::array(out)
}

/// The texts as a JSON array.
pub open spec fn text_values(v: Seq<Seq<char>>) -> JsonV {
    JsonV::Arr(Seq::new(v.len(), |i: int| JsonV::Str(v[i])))
}

pub(crate) fn texts_json(v: &Vec<String>) -> (r: Json)
    ensures
        r@ == text_values(texts(v@)),
{
    let ghost all = text_values(texts(v@))->Arr_0;
    let mut out: Vec<Json> = Vec::new();
    let mut i: usize = 0;
    while i < v.len()
        invariant
            0 <= i <= v.len(),
            all == text_values(texts(v@))->Arr_0,
            views(out@) == all.take(i as int),
        decreases v.len() - i,
    {
        let j = Json::text(v[i].as_str());
        let ghost before = views(out@);
        out.push(j);
        assert(views(out@) =~= before.push(j@));
        assert(all.take(i + 1) =~= all.take(i as int).push(all[i as int]));
        i = i + 1;
    }
    assert(all.take(i as int) =~= all);
    Json::array(out)
}

/// A successful response.
pub open spec fn ok_frame(id: JsonV, result: JsonV) -> JsonV {
    no_members().put("jsonrpc"@, JsonV::Str("2.0"@)).put("id"@, id).put("result"@, result)
}

/// A failed response.
pub open spec fn err_frame(id: JsonV, message: Seq<char>) -> JsonV {
    no_members().put("jsonrpc"@, JsonV::Str("2.0"@)).put("id"@, id).put(
        "error"@,
        no_members().put("code"@, JsonV::Number("-32600"@)).put("message"@, JsonV::Str(message)),
    )
}

/// A `session/update` notification.
pub open spec fn update_frame(session_id: Seq<char>, update: JsonV) -> JsonV {
    no_members().put("jsonrpc"@, JsonV::Str("2.0"@)).put(
        "method"@,
        JsonV::Str("session/update"@),
    ).put(
        "params"@,
        no_members().put("schemaVersion"@, JsonV::Uint(UPDATE_SCHEMA_VERSION)).put(
            "sessionId"@,
            JsonV::Str(session_id),
        ).put("update"@, update),
    )
}

/// A request to the client.
pub open spec fn request_frame(id: u64, method: Seq<char>, params: JsonV) -> JsonV {
    no_members().put("jsonrpc"@, JsonV::Str("2.0"@)).put("id"@, JsonV::Uint(id)).put(
        "method"@,
        JsonV::Str(method),
    ).put("params"@, params)
}

pub(crate) fn reply_ok(id: &Json, result: Json) -> (r: Json)
    ensures
        r@ == ok_frame(id@, result@),
{
    Json::object().with("jsonrpc", Json::text("2.0")).with("id", id.clone()).with("result", result)
}

pub(crate) fn reply_err(id: &Json, message: &str) -> (r: Json)
    ensures
        r@ == err_frame(id@, message@),
{
    Json::object().with("jsonrpc", Json::text("2.0")).with("id", id.clone()).with(
        "error",
        Json::object().with("code", Json::Number("-32600".to_owned())).with(
            "message",
            Json::text(message),
        ),
    )
}

pub(crate) fn notify(session_id: &str, update: Json) -> (r: Json)
    ensures
        r@ == update_frame(session_id@, update@),
{
    Json::object().with("jsonrpc", Json::text("2.0")).with(
        "method",
        Json::text("session/update"),
    ).with(
        "params",
        Json::object().with("schemaVersion", Json::Uint(UPDATE_SCHEMA_VERSION)).with(
            "sessionId",
            Json::text(session_id),
        ).with("update", update),
    )
}

pub(crate) fn request(id: u64, method: &str, params: Json) -> (r: Json)
    ensures
        r@ == request_frame(id, method@, params@),
{
    Json::object().with("jsonrpc", Json::text("2.0")).with("id", Json::Uint(id)).with(
        "method",
        Json::text(method),
    ).with("params", params)
}

/// The reasoning depth that a client sets.
#[derive(Debug, Clone, Copy, PartialEq, Eq, Structural)]
pub enum Effort {
    Low,
    Medium,
    High,
    XHigh,
    Max,
}

impl Effort {
    /// The effort's word.
    pub open spec fn word(self) -> Seq<char> {
        match self {
            Effort::Low => "low"@,
            Effort::Medium => "medium"@,
            Effort::High => "high"@,
            Effort::XHigh => "xhigh"@,
            Effort::Max => "max"@,
        }
    }

    /// The effort's word.
    pub fn as_str(self) -> (r: &'static str)
        ensures
            r@ == self.word(),
    {
        match self {
            Effort::Low => "low",
            Effort::Medium => "medium",
            Effort::High => "high",
            Effort::XHigh => "xhigh",
            Effort::Max => "max",
        }
    }
}

/// What an effort word asks for: `Some(None)` is the provider's own default,
/// which has four spellings.
pub open spec fn effort_of(word: Seq<char>) -> Option<Option<Effort>> {
    let w = trimmed(word);
    if w == ""@ || w == "default"@ || w == "unset"@ || w == "none"@ {
        Some(None)
    } else if w == "low"@ {
        Some(Some(Effort::Low))
    } else if w == "medium"@ {
        Some(Some(Effort::Medium))
    } else if w == "high"@ {
        Some(Some(Effort::High))
    } else if w == "xhigh"@ {
        Some(Some(Effort::XHigh))
    } else if w == "max"@ {
        Some(Some(Effort::Max))
    } else {
        None
    }
}

/// Reads an effort word.
pub fn parse_effort(word: &str) -> (r: Option<Option<Effort>>)
    ensures
        r == effort_of(word@),
{
    let w = trim(word);
    if same(w, "") || same(w, "default") || same(w, "unset") || same(w, "none") {
        Some(None)
    } else if same(w, "low") {
        Some(Some(Effort::Low))
    } else if same(w, "medium") {
        Some(Some(Effort::Medium))
    } else if same(w, "high") {
        Some(Some(Effort::High))
    } else if same(w, "xhigh") {
        Some(Some(Effort::XHigh))
    } else if same(w, "max") {
        Some(Some(Effort::Max))
    } else {
        None
    }
}

/// A session's display name: the text without white space at its ends, where
/// that has one to 64 characters.
pub open spec fn session_name(s: Seq<char>) -> Option<Seq<char>> {
    let t = trimmed(s);
    if 1 <= t.len() <= 64 {
        Some(t)
    } else {
        None
    }
}

/// A session's display name, where the text gives one.
pub fn normalize_session_name(s: &str) -> (r: Option<String>)
    ensures
        opt_text(r) == session_name(s@),
{
    let t = trim(s);
    let n: usize = t.unicode_len();
    if 1 <= n && n <= 64 {
        Some(t.to_owned())
    } else {
        None
    }
}

/// The request parameter under `key`.
pub open spec fn param(msg: JsonV, key: Seq<char>) -> Option<JsonV> {
    match field(msg, "params"@) {
        Some(p) => field(p, key),
        None => None,
    }
}

/// The text parameter under `key`.
pub open spec fn text_param(msg: JsonV, key: Seq<char>) -> Option<Seq<char>> {
    match param(msg, key) {
        Some(JsonV::Str(s)) => Some(s),
        _ => None,
    }
}

/// The flag parameter under `key`.
pub open spec fn bool_param(msg: JsonV, key: Seq<char>) -> Option<bool> {
    match param(msg, key) {
        Some(JsonV::Bool(b)) => Some(b),
        _ => None,
    }
}

pub(crate) fn get_param<'a>(msg: &'a Json, key: &str) -> (r: Option<&'a Json>)
    ensures
        opt_view(r) == param(msg@, key@),
{
    match msg.get("params") {
        Some(p) => p.get(key),
        None => None,
    }
}

pub(crate) fn get_text_param<'a>(msg: &'a Json, key: &str) -> (r: Option<&'a str>)
    ensures
        opt_str(r) == text_param(msg@, key@),
{
    match get_param(msg, key) {
        Some(j) => j.as_str(),
        None => None,
    }
}

pub(crate) fn get_bool_param(msg: &Json, key: &str) -> (r: Option<bool>)
    ensures
        r == bool_param(msg@, key@),
{
    match get_param(msg, key) {
        Some(Json::Bool(b)) => Some(*b),
        _ => None,
    }
}

/// An optional count among the parameters, or what is wrong with it.
pub open spec fn count_param(msg: JsonV, key: Seq<char>) -> Result<Option<usize>, Seq<char>> {
    match param(msg, key) {
        None => Ok(None),
        Some(JsonV::Null) => Ok(None),
        Some(JsonV::Uint(n)) => Ok(Some(n as usize)),
        Some(_) => Err("params."@ + key + " must be a non-negative integer"@),
    }
}

fn get_count(msg: &Json, key: &str) -> (r: Result<Option<usize>, String>)
    ensures
        match r {
            Ok(n) => count_param(msg@, key@) == Ok::<Option<usize>, Seq<char>>(n),
            Err(e) => count_param(msg@, key@) == Err::<Option<usize>, Seq<char>>(e@),
        },
{
    match get_param(msg, key) {
        None => Ok(None),
        Some(Json::Null) => Ok(None),
        Some(Json::Uint(n)) => Ok(Some(*n as usize)),
        Some(_) => {
            let mut e = "params.".to_owned();
            e.append(key);
            e.append(" must be a non-negative integer");
            Err(e)
        },
    }
}

/// How much a `session/load` keeps, or what is wrong with the request: the two
/// coordinates exclude each other.
pub open spec fn keep_of(msg: JsonV) -> Result<KeepSpec, Seq<char>> {
    match count_param(msg, "keepItems"@) {
        Err(e) => Err(e),
        Ok(items) => match count_param(msg, "keepTurns"@) {
            Err(e) => Err(e),
            Ok(turns) => match (items, turns) {
                (Some(_), Some(_)) => Err(
                    "params.keepItems and params.keepTurns are mutually exclusive"@,
                ),
                (Some(n), None) => Ok(KeepSpec::Items(n)),
                (None, Some(t)) => Ok(KeepSpec::Turns(t)),
                (None, None) => Ok(KeepSpec::All),
            },
        },
    }
}

/// How much a `session/load` keeps, or what is wrong with the request.
pub fn keep_spec(msg: &Json) -> (r: Result<KeepSpec, String>)
    ensures
        match r {
            Ok(k) => keep_of(msg@) == Ok::<KeepSpec, Seq<char>>(k),
            Err(e) => keep_of(msg@) == Err::<KeepSpec, Seq<char>>(e@),
        },
{
    let items = match get_count(msg, "keepItems") {
        Ok(n) => n,
        Err(e) => {
            return Err(e);
        },
    };
    let turns = match get_count(msg, "keepTurns") {
        Ok(n) => n,
        Err(e) => {
            return Err(e);
        },
    };
    match (items, turns) {
        (Some(_), Some(_)) => Err(
            "params.keepItems and params.keepTurns are mutually exclusive".to_owned(),
        ),
        (Some(n), None) => Ok(KeepSpec::Items(n)),
        (None, Some(t)) => Ok(KeepSpec::Turns(t)),
        (None, None) => Ok(KeepSpec::All),
    }
}

/// What a request for a session asks to be opened, or what is wrong with it.
pub open spec fn open_request(msg: JsonV, load: bool) -> Result<SessionSpecV, Seq<char>> {
    let name = match param(msg, "name"@) {
        None => Ok(None),
        Some(JsonV::Null) => Ok(None),
        Some(JsonV::Str(s)) => match session_name(s) {
            Some(n) => Ok(Some(n)),
            None => Err("params.name must be 1–64 chars after trimming"@),
        },
        Some(_) => Err("params.name must be 1–64 chars after trimming"@),
    };
    let fork = bool_param(msg, "fork"@) == Some(true);
    match name {
        Err(e) => Err(e),
        Ok(name) => if !load {
            Ok(SessionSpecV::New(name))
        } else {
            match keep_of(msg) {
                Err(e) => Err(e),
                Ok(keep) => if !fork && keep != KeepSpec::All {
                    Err("params.keepItems/keepTurns only apply to a fork (params.fork: true)"@)
                } else {
                    match text_param(msg, "sessionId"@) {
                        Some(sid) => if fork {
                            Ok(SessionSpecV::Fork(sid, keep, name))
                        } else {
                            Ok(SessionSpecV::Load(sid, name))
                        },
                        None => Err("session/load requires params.sessionId"@),
                    }
                },
            }
        },
    }
}

pub(crate) fn read_open_request(msg: &Json, load: bool) -> (r: Result<SessionSpec, String>)
    ensures
        match r {
            Ok(s) => open_request(msg@, load) == Ok::<SessionSpecV, Seq<char>>(s@),
            Err(e) => open_request(msg@, load) == Err::<SessionSpecV, Seq<char>>(e@),
        },
{
    let name: Option<String> = match get_param(msg, "name") {
        None => None,
        Some(Json::Null) => None,
        Some(Json::Str(s)) => match normalize_session_name(s.as_str()) {
            Some(n) => Some(n),
            None => {
                return Err("params.name must be 1–64 chars after trimming".to_owned());
            },
        },
        Some(_) => {
            return Err("params.name must be 1–64 chars after trimming".to_owned());
        },
    };
    let fork = get_bool_param(msg, "fork") == Some(true);
    if !load {
        return Ok(SessionSpec::New { name });
    }
    let keep = match keep_spec(msg) {
        Ok(k) => k,
        Err(e) => {
            return Err(e);
        },
    };
    if !fork && keep != KeepSpec::All {
        return Err(
            "params.keepItems/keepTurns only apply to a fork (params.fork: true)".to_owned(),
        );
    }
    match get_text_param(msg, "sessionId") {
        Some(sid) => {
            if fork {
                Ok(SessionSpec::Fork { session_id: sid.to_owned(), keep, name })
            } else {
                Ok(SessionSpec::Load { session_id: sid.to_owned(), name })
            }
        },
        None => Err("session/load requires params.sessionId".to_owned()),
    }
}

proof fn words_differ()
    ensures
        ""@ != "default"@,
        ""@ != "unset"@,
        ""@ != "none"@,
        ""@ != "low"@,
        ""@ != "medium"@,
        ""@ != "high"@,
        ""@ != "xhigh"@,
        ""@ != "max"@,
        "default"@ != "unset"@,
        "default"@ != "none"@,
        "default"@ != "low"@,
        "default"@ != "medium"@,
        "default"@ != "high"@,
        "default"@ != "xhigh"@,
        "default"@ != "max"@,
        "unset"@ != "none"@,
        "unset"@ != "low"@,
        "unset"@ != "medium"@,
        "unset"@ != "high"@,
        "unset"@ != "xhigh"@,
        "unset"@ != "max"@,
        "none"@ != "low"@,
        "none"@ != "medium"@,
        "none"@ != "high"@,
        "none"@ != "xhigh"@,
        "none"@ != "max"@,
        "low"@ != "medium"@,
        "low"@ != "high"@,
        "low"@ != "xhigh"@,
        "low"@ != "max"@,
        "medium"@ != "high"@,
        "medium"@ != "xhigh"@,
        "medium"@ != "max"@,
        "high"@ != "xhigh"@,
        "high"@ != "max"@,
        "xhigh"@ != "max"@,
        "name"@ != "description"@,
{
    reveal_strlit("");
    reveal_strlit("default");
    reveal_strlit("unset");
    reveal_strlit("none");
    reveal_strlit("low");
    reveal_strlit("medium");
    reveal_strlit("high");
    reveal_strlit("xhigh");
    reveal_strlit("max");
    reveal_strlit("name");
    reveal_strlit("description");
    assert(""@.len() != "default"@.len());
    assert(""@.len() != "unset"@.len());
    assert(""@.len() != "none"@.len());
    assert(""@.len() != "low"@.len());
    assert(""@.len() != "medium"@.len());
    assert(""@.len() != "high"@.len());
    assert(""@.len() != "xhigh"@.len());
    assert(""@.len() != "max"@.len());
    assert("default"@.len() != "unset"@.len());
    assert("default"@.len() != "none"@.len());
    assert("default"@.len() != "low"@.len());
    assert("default"@.len() != "medium"@.len());
    assert("default"@.len() != "high"@.len());
    assert("default"@.len() != "xhigh"@.len());
    assert("default"@.len() != "max"@.len());
    assert("unset"@.len() != "none"@.len());
    assert("unset"@.len() != "low"@.len());
    assert("unset"@.len() != "medium"@.len());
    assert("unset"@.len() != "high"@.len());
    assert("unset"@[0] != "xhigh"@[0]);
    assert("unset"@.len() != "max"@.len());
    assert("none"@.len() != "low"@.len());
    assert("none"@.len() != "medium"@.len());
    assert("none"@[0] != "high"@[0]);
    assert("none"@.len() != "xhigh"@.len());
    assert("none"@.len() != "max"@.len());
    assert("low"@.len() != "medium"@.len());
    assert("low"@.len() != "high"@.len());
    assert("low"@.len() != "xhigh"@.len());
    assert("low"@[0] != "max"@[0]);
    assert("medium"@.len() != "high"@.len());
    assert("medium"@.len() != "xhigh"@.len());
    assert("medium"@.len() != "max"@.len());
    assert("high"@.len() != "xhigh"@.len());
    assert("high"@.len() != "max"@.len());
    assert("xhigh"@.len() != "max"@.len());
    assert("name"@.len() != "description"@.len());
}

proof fn texts_among_filters(v: Seq<JsonV>, n: nat)
    requires
        n <= v.len(),
    ensures
        texts_among(v, n) == v.take(n as int).filter(|j: JsonV| j is Str).map_values(
            |j: JsonV| j->Str_0,
        ),
    decreases n,
{
    reveal(Seq::filter);
    let is_text = |j: JsonV| j is Str;
    let text = |j: JsonV| j->Str_0;
    if n == 0 {
        assert(v.take(0).filter(is_text).map_values(text) =~= Seq::<Seq<char>>::empty());
    } else {
        texts_among_filters(v, (n - 1) as nat);
        let t = v.take(n - 1);
        assert(v.take(n as int).drop_last() =~= t);
        assert(v.take(n as int).last() == v[n - 1]);
        if v[n - 1] is Str {
            assert(t.filter(is_text).push(v[n - 1]).map_values(text) =~= t.filter(
                is_text,
            ).map_values(text).push(v[n - 1]->Str_0));
        }
    }
}

/// A question is answered with the client's own words: its text where it wrote
/// one, else every label that it selected, in its order; without either nobody
/// answered.
pub proof fn questions_are_answered_in_the_clients_words(r: JsonV)
    ensures
        ({
            let a = question_answer_of(Some(r));
            let labels = match array_at(r, "selected"@) {
                Some(v) => v.filter(|j: JsonV| j is Str).map_values(|j: JsonV| j->Str_0),
                None => Seq::empty(),
            };
            &&& text_at(r, "freeText"@) matches Some(t) ==> a == QuestionAnswerV::FreeText(t)
            &&& text_at(r, "freeText"@) is None && labels.len() > 0 ==> a
                == QuestionAnswerV::Selected(labels)
            &&& text_at(r, "freeText"@) is None && labels.len() == 0 ==> a
                == QuestionAnswerV::NoHuman
        }),
{
    if let Some(v) = array_at(r, "selected"@) {
        texts_among_filters(v, v.len());
        assert(v.take(v.len() as int) =~= v);
    }
}

/// A permission is answered as the client says: its own answer comes before an
/// input, an input before a plain permission; and a denial carries the client's
/// message.
pub proof fn permissions_are_answered_as_said(r: JsonV)
    ensures
        ({
            let a = ask_reply_of(Some(r));
            let own = text_at(r, "respond"@);
            let input = field(r, "input"@);
            let yes = bool_at(r, "allow"@) == Some(true);
            let lifted = bool_at(r, "secretReads"@) == Some(true);
            &&& own matches Some(t) ==> a == AskReplyV::Respond(t)
            &&& own is None && input is Some ==> a == AskReplyV::AllowEdited(input->0)
            &&& own is None && input is None && yes && lifted ==> a
                == AskReplyV::AllowWithSecretReads
            &&& own is None && input is None && yes && !lifted ==> a == AskReplyV::Allow
            &&& own is None && input is None && !yes ==> a == AskReplyV::Deny(
                text_at(r, "message"@),
            )
        }),
{
}

/// An effort is asked for by its own word and by no other, whatever white space
/// is around it; four words ask for the provider's default, and any other word
/// for nothing.
pub proof fn efforts_have_one_word(word: Seq<char>)
    ensures
        effort_of(word) == Some(Some(Effort::Low)) <==> trimmed(word) == "low"@,
        effort_of(word) == Some(Some(Effort::Medium)) <==> trimmed(word) == "medium"@,
        effort_of(word) == Some(Some(Effort::High)) <==> trimmed(word) == "high"@,
        effort_of(word) == Some(Some(Effort::XHigh)) <==> trimmed(word) == "xhigh"@,
        effort_of(word) == Some(Some(Effort::Max)) <==> trimmed(word) == "max"@,
        effort_of(word) == Some(None::<Effort>) <==> trimmed(word) == ""@ || trimmed(word)
            == "default"@ || trimmed(word) == "unset"@ || trimmed(word) == "none"@,
        effort_of(word) matches Some(Some(e)) ==> e.word() == trimmed(word),
{
    words_differ();
}

/// A session's name is what was given without white space at its ends, where one
/// to 64 characters are left; it is the name that it gives again.
pub proof fn names_are_short_and_trimmed(s: Seq<char>)
    ensures
        session_name(s) is Some <==> 1 <= trimmed(s).len() <= 64,
        session_name(s) matches Some(n) ==> n == trimmed(s) && session_name(n) == Some(n),
{
    crate::text::trimming_is_done_once(s);
}

/// A count among the parameters is the number that is there; none, or `null`, is
/// no count, and anything else is refused by the name of the parameter.
pub proof fn counts_are_plain_numbers(msg: JsonV, params: JsonV, key: Seq<char>)
    requires
        field(msg, "params"@) == Some(params),
    ensures
        field(params, key) is None || field(params, key) == Some(JsonV::Null) ==> count_param(
            msg,
            key,
        ) == Ok::<Option<usize>, Seq<char>>(None),
        uint_at(params, key) matches Some(n) && n <= usize::MAX ==> (count_param(msg, key)
            matches Ok(Some(k)) && k == uint_at(params, key)->0),
        field(params, key) is Some && field(params, key) != Some(JsonV::Null) && uint_at(params, key)
            is None ==> count_param(msg, key) == Err::<Option<usize>, Seq<char>>(
            "params."@ + key + " must be a non-negative integer"@,
        ),
{
}

/// A prefix is kept by items or by turns, not by both: both are refused, either
/// is taken as it stands, and with neither all is kept.
pub proof fn prefixes_have_one_coordinate(msg: JsonV, params: JsonV, items: usize, turns: usize)
    requires
        field(msg, "params"@) == Some(params),
    ensures
        ({
            let i = field(params, "keepItems"@);
            let t = field(params, "keepTurns"@);
            let keep = keep_of(msg);
            &&& i is None && t is None ==> keep == Ok::<KeepSpec, Seq<char>>(KeepSpec::All)
            &&& i == Some(JsonV::Uint(items as u64)) && t is None ==> keep == Ok::<
                KeepSpec,
                Seq<char>,
            >(KeepSpec::Items(items))
            &&& i is None && t == Some(JsonV::Uint(turns as u64)) ==> keep == Ok::<
                KeepSpec,
                Seq<char>,
            >(KeepSpec::Turns(turns))
            &&& i is Some && i != Some(JsonV::Null) && t is Some && t != Some(JsonV::Null) ==> keep
                is Err
        }),
{
}

/// A session is opened with the name that the request gives, trimmed, and a bad
/// name opens none. A request to load names its session, or it is refused; and a
/// prefix is kept only by a fork.
pub proof fn requests_open_what_they_name(msg: JsonV, params: JsonV, name: Seq<char>, sid: Seq<char>)
    requires
        field(msg, "params"@) == Some(params),
        text_at(params, "name"@) == Some(name),
    ensures
        ({
            let short = 1 <= trimmed(name).len() <= 64;
            let fork = bool_at(params, "fork"@) == Some(true);
            let given = text_at(params, "sessionId"@) == Some(sid);
            let new = open_request(msg, false);
            let load = open_request(msg, true);
            &&& !short ==> new is Err && load is Err
            &&& short ==> new == Ok::<SessionSpecV, Seq<char>>(
                SessionSpecV::New(Some(trimmed(name))),
            )
            &&& short && given && !fork && keep_of(msg) == Ok::<KeepSpec, Seq<char>>(KeepSpec::All)
                ==> load == Ok::<SessionSpecV, Seq<char>>(
                SessionSpecV::Load(sid, Some(trimmed(name))),
            )
            &&& short && given && fork && keep_of(msg) is Ok ==> load == Ok::<
                SessionSpecV,
                Seq<char>,
            >(SessionSpecV::Fork(sid, keep_of(msg)->Ok_0, Some(trimmed(name))))
            &&& text_at(params, "sessionId"@) is None ==> load is Err
            &&& keep_of(msg) is Err ==> load is Err
            &&& !fork && keep_of(msg) != Ok::<KeepSpec, Seq<char>>(KeepSpec::All) ==> load is Err
        }),
{
}

/// The roster lists every skill by name and description, in order.
pub proof fn rosters_list_every_skill(skills: Seq<(Seq<char>, Seq<char>)>, i: int)
    requires
        0 <= i < skills.len(),
    ensures
        skill_values(skills) matches JsonV::Arr(v) && v.len() == skills.len() && text_at(
            v[i],
            "name"@,
        ) == Some(skills[i].0) && text_at(v[i], "description"@) == Some(skills[i].1),
{
    broadcast use {put_reads, nothing_reads};

    words_differ();
}

proof fn frame_names_differ()
    ensures
        "jsonrpc"@ != "id"@,
        "jsonrpc"@ != "result"@,
        "jsonrpc"@ != "error"@,
        "jsonrpc"@ != "method"@,
        "jsonrpc"@ != "params"@,
        "id"@ != "result"@,
        "id"@ != "error"@,
        "id"@ != "method"@,
        "id"@ != "params"@,
        "result"@ != "error"@,
        "result"@ != "method"@,
        "result"@ != "params"@,
        "error"@ != "method"@,
        "error"@ != "params"@,
        "method"@ != "params"@,
        "code"@ != "message"@,
{
    reveal_strlit("jsonrpc");
    reveal_strlit("id");
    reveal_strlit("result");
    reveal_strlit("error");
    reveal_strlit("method");
    reveal_strlit("params");
    reveal_strlit("code");
    reveal_strlit("message");
    assert("jsonrpc"@.len() != "id"@.len());
    assert("jsonrpc"@.len() != "result"@.len());
    assert("jsonrpc"@.len() != "error"@.len());
    assert("jsonrpc"@.len() != "method"@.len());
    assert("jsonrpc"@.len() != "params"@.len());
    assert("id"@.len() != "result"@.len());
    assert("id"@.len() != "error"@.len());
    assert("id"@.len() != "method"@.len());
    assert("id"@.len() != "params"@.len());
    assert("result"@.len() != "error"@.len());
    assert("result"@[0] != "method"@[0]);
    assert("result"@[0] != "params"@[0]);
    assert("error"@.len() != "method"@.len());
    assert("error"@.len() != "params"@.len());
    assert("method"@[0] != "params"@[0]);
    assert("code"@.len() != "message"@.len());
}

/// Every frame names the version of the protocol. A response carries its request's id
/// and either a result or an error with its code and its words; a notification carries
/// no id; a request carries its own.
pub proof fn frames_speak_the_protocol(
    id: JsonV,
    n: u64,
    value: JsonV,
    words: Seq<char>,
    sid: Seq<char>,
    method: Seq<char>,
)
    ensures
        ({
            let good = ok_frame(id, value);
            let bad = err_frame(id, words);
            let note = update_frame(sid, value);
            let ask = request_frame(n, method, value);
            &&& text_at(good, "jsonrpc"@) == Some("2.0"@) && text_at(bad, "jsonrpc"@) == Some(
                "2.0"@,
            ) && text_at(note, "jsonrpc"@) == Some("2.0"@) && text_at(ask, "jsonrpc"@) == Some(
                "2.0"@,
            )
            &&& field(good, "id"@) == Some(id) && field(good, "result"@) == Some(value) && field(
                good,
                "error"@,
            ) is None
            &&& field(bad, "id"@) == Some(id) && field(bad, "result"@) is None
            &&& field(bad, "error"@) matches Some(e) && field(e, "code"@) == Some(
                JsonV::Number("-32600"@),
            ) && text_at(e, "message"@) == Some(words)
            &&& field(note, "id"@) is None && field(note, "result"@) is None
            &&& uint_at(ask, "id"@) == Some(n) && text_at(ask, "method"@) == Some(method) && field(
                ask,
                "params"@,
            ) == Some(value)
        }),
{
    broadcast use {put_reads, nothing_reads};

    frame_names_differ();
}

} // verus!
