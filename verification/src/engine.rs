//! What the engine asks of a human and what a human answers, as the surfaces
//! hand it to and fro.
use crate::json::{Json, JsonV};
use crate::text::{opt_text, texts};
use vstd::prelude::*;

verus! {

/// A human's answer to a permission ask.
#[derive(Debug, PartialEq, Eq)]
pub enum AskReply {
    Allow,
    /// Allowed, and for this one command the credential read-deny is lifted.
    AllowWithSecretReads,
    /// Allowed with another input.
    AllowEdited { input: Json },
    /// Answered in the tool's place.
    Respond { content: String },
    Deny { message: Option<String> },
}

/// The view of an [`AskReply`].
#[verifier::ext_equal]
pub enum AskReplyV {
    Allow,
    AllowWithSecretReads,
    AllowEdited(JsonV),
    Respond(Seq<char>),
    Deny(Option<Seq<char>>),
}

impl View for AskReply {
    type V = AskReplyV;

    open spec fn view(&self) -> AskReplyV {
        match *self {
            AskReply::Allow => AskReplyV::Allow,
            AskReply::AllowWithSecretReads => AskReplyV::AllowWithSecretReads,
            AskReply::AllowEdited { input } => AskReplyV::AllowEdited(input@),
            AskReply::Respond { content } => AskReplyV::Respond(content@),
            AskReply::Deny { message } => AskReplyV::Deny(opt_text(message)),
        }
    }
}

/// A human's answer to an egress ask. `NoAnswer` refuses the connection
/// without being remembered as a decision.
#[derive(Debug, Clone, Copy, PartialEq, Eq, Structural)]
pub enum EgressDecision {
    Allow,
    Deny,
    NoAnswer,
}

/// A human's answer to a question. It is read by the model and authorizes
/// nothing.
#[derive(Debug, PartialEq, Eq)]
pub enum QuestionAnswer {
    Selected(Vec<String>),
    FreeText(String),
    NoHuman,
}

/// The view of a [`QuestionAnswer`].
#[verifier::ext_equal]
pub enum QuestionAnswerV {
    Selected(Seq<Seq<char>>),
    FreeText(Seq<char>),
    NoHuman,
}

impl View for QuestionAnswer {
    type V = QuestionAnswerV;

    open spec fn view(&self) -> QuestionAnswerV {
        match *self {
            QuestionAnswer::Selected(v) => QuestionAnswerV::Selected(texts(v@)),
            QuestionAnswer::FreeText(s) => QuestionAnswerV::FreeText(s@),
            QuestionAnswer::NoHuman => QuestionAnswerV::NoHuman,
        }
    }
}

/// What the engine tells a surface. The frames of a stream update, of an
/// outcome and of usage come already rendered.
#[derive(Debug)]
pub enum EngineEvent {
    Ask { summary: String, protected_why: Option<String> },
    Question { id: String, header: String, prompt: String, options: Json, multi: bool },
    EgressAsk { host: String },
    TurnDone { outcome: Json, usage: Json, mispredictions: u64 },
    /// A stream frame, or nothing where the event has none.
    Update(Option<Json>),
}

/// The view of an [`EngineEvent`].
pub enum EngineEventV {
    Ask(Seq<char>, Option<Seq<char>>),
    Question { id: Seq<char>, header: Seq<char>, prompt: Seq<char>, options: JsonV, multi: bool },
    EgressAsk(Seq<char>),
    TurnDone { outcome: JsonV, usage: JsonV, mispredictions: u64 },
    Update(Option<JsonV>),
}

impl View for EngineEvent {
    type V = EngineEventV;

    open spec fn view(&self) -> EngineEventV {
        match *self {
            EngineEvent::Ask { summary, protected_why } => EngineEventV::Ask(
                summary@,
                opt_text(protected_why),
            ),
            EngineEvent::Question { id, header, prompt, options, multi } => EngineEventV::Question {
                id: id@,
                header: header@,
                prompt: prompt@,
                options: options@,
                multi,
            },
            EngineEvent::EgressAsk { host } => EngineEventV::EgressAsk(host@),
            EngineEvent::TurnDone { outcome, usage, mispredictions } => EngineEventV::TurnDone {
                outcome: outcome@,
                usage: usage@,
                mispredictions,
            },
            EngineEvent::Update(u) => EngineEventV::Update(
                match u {
                    Some(j) => Some(j@),
                    None => None,
                },
            ),
        }
    }
}

/// The text value of an optional text, `null` where there is none.
pub open spec fn text_or_null(o: Option<Seq<char>>) -> JsonV {
    match o {
        Some(s) => JsonV::Str(s),
        None => JsonV::Null,
    }
}

/// The text value of an optional text, `null` where there is none.
pub fn opt_json(o: Option<&str>) -> (r: Json)
    ensures
        r@ == text_or_null(crate::text::opt_str(o)),
{
    match o {
        Some(s) => Json::text(s),
        None => Json::Null,
    }
}

} // verus!
