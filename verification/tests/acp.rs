//! The agent protocol: what a client sends and what is answered.
use hotl::acp::{
    ask_reply_from_result, egress_decision_from_result, keep_spec, normalize_session_name,
    parse_effort, question_answer_from_result, Effort, KeepSpec, ServerInfo, SessionOpen,
    SessionSpec, SkillInfo, PROTOCOL_VERSION,
};
use hotl::config::PermissionMode;
use hotl::connection::{Action, Answer, Call, Connection, Heard, Reaction};
use hotl::engine::{AskReply, EgressDecision, EngineEvent, QuestionAnswer};
use hotl::json::Json;

/// The value that a JSON text denotes.
fn json(text: &str) -> Json {
    from_value(serde_json::from_str::<serde_json::Value>(text).unwrap())
}

fn from_value(v: serde_json::Value) -> Json {
    match v {
        serde_json::Value::Null => Json::Null,
        serde_json::Value::Bool(b) => Json::Bool(b),
        serde_json::Value::Number(n) => match n.as_u64() {
            Some(u) => Json::Uint(u),
            None => Json::Number(n.to_string()),
        },
        serde_json::Value::String(s) => Json::Str(s),
        serde_json::Value::Array(a) => Json::Arr(a.into_iter().map(from_value).collect()),
        serde_json::Value::Object(o) => {
            Json::Obj(o.into_iter().map(|(k, v)| (k, from_value(v))).collect())
        }
    }
}

#[test]
fn acp_egress_maps_two_answers_and_denies_everything_else() {
    let decide = |text: &str| egress_decision_from_result(Some(&json(text)));
    assert_eq!(decide(r#"{"allow": true}"#), EgressDecision::Allow);
    assert_eq!(decide(r#"{"allow": false}"#), EgressDecision::Deny);
    assert_eq!(
        egress_decision_from_result(None),
        EgressDecision::NoAnswer,
        "a client that never answered is not a client that said no"
    );
    assert_eq!(decide("{}"), EgressDecision::NoAnswer);
    assert_eq!(
        decide(r#"{"allow": "yes"}"#),
        EgressDecision::NoAnswer,
        "a non-boolean is malformed, never a grant"
    );
}

#[test]
fn secret_reads_is_opt_in_and_only_on_an_allow() {
    let reply = |text: &str| ask_reply_from_result(Some(&json(text)));
    assert_eq!(
        reply(r#"{"allow": true, "secretReads": true}"#),
        AskReply::AllowWithSecretReads
    );
    for result in [
        r#"{"allow": true}"#,
        r#"{"allow": true, "secretReads": false}"#,
        // A non-boolean is not a grant.
        r#"{"allow": true, "secretReads": "yes"}"#,
    ] {
        assert_eq!(reply(result), AskReply::Allow, "{result}");
    }
    // The flag cannot smuggle an approval past a denial.
    assert!(matches!(
        reply(r#"{"allow": false, "secretReads": true}"#),
        AskReply::Deny { .. }
    ));
    assert!(matches!(ask_reply_from_result(None), AskReply::Deny { .. }));
}

#[test]
fn a_question_is_answered_by_a_selection_or_by_nobody() {
    assert_eq!(question_answer_from_result(None), QuestionAnswer::NoHuman);
    assert_eq!(question_answer_from_result(Some(&json("{}"))), QuestionAnswer::NoHuman);
}

#[test]
fn words_and_names_are_read_as_documented() {
    assert_eq!(parse_effort("high"), Some(Some(Effort::High)));
    assert_eq!(parse_effort("default"), Some(None));
    assert_eq!(parse_effort("huge"), None);
    assert_eq!(Effort::XHigh.as_str(), "xhigh");
    assert_eq!(normalize_session_name("  fix-auth "), Some("fix-auth".to_string()));
    assert_eq!(normalize_session_name("   "), None);
    assert_eq!(normalize_session_name(&"x".repeat(65)), None);
    assert_eq!(normalize_session_name(&"x".repeat(64)), Some("x".repeat(64)));
}

#[test]
fn what_is_kept_is_a_count_of_items_or_of_turns() {
    let keep = |text: &str| keep_spec(&json(text));
    assert_eq!(keep(r#"{"params":{}}"#), Ok(KeepSpec::All));
    assert_eq!(keep(r#"{"params":{"keepItems":3}}"#), Ok(KeepSpec::Items(3)));
    assert_eq!(keep(r#"{"params":{"keepTurns":2}}"#), Ok(KeepSpec::Turns(2)));
    assert!(keep(r#"{"params":{"keepItems":3,"keepTurns":2}}"#).is_err());
}

fn info() -> ServerInfo {
    ServerInfo {
        skills: vec![SkillInfo { name: "how-to".to_string(), description: "d".to_string() }],
        default_mode: "bypass".to_string(),
        default_plan: false,
        context_window: 200_000,
        model: "m".to_string(),
    }
}

fn open() -> SessionOpen {
    SessionOpen {
        name: None,
        mode: "bypass".to_string(),
        plan: false,
        default_effort: None,
        session_id: "01J".to_string(),
    }
}

fn ask_server(c: &mut Connection, line: &str) -> Reaction {
    match c.hear(line) {
        Heard::Request(r) => r,
        other => panic!("{other:?}"),
    }
}

/// A connection with a session, and the handle of that session.
fn with_session() -> (Connection, String) {
    let mut c = Connection::new(info(), true, false);
    let r = ask_server(&mut c, r#"{"jsonrpc":"2.0","id":1,"method":"session/new","params":{}}"#);
    let Call::Open { spec, id, resume } = r.call else {
        panic!("{:?}", r.call);
    };
    assert_eq!(spec, SessionSpec::New { name: None });
    let actions = c.opened(&id, resume, &Ok(open()));
    let sent = sent(&actions);
    let handle = sent[0].get("result").unwrap().text_field("sessionId").unwrap().to_string();
    (c, handle)
}

fn sent(actions: &[Action]) -> Vec<Json> {
    actions
        .iter()
        .filter_map(|a| match a {
            Action::Send(j) => Some(j.clone()),
            _ => None,
        })
        .collect()
}

fn is_error(j: &Json) -> bool {
    j.get("error").is_some()
}

#[test]
fn initialize_tells_what_the_server_offers() {
    let mut c = Connection::new(info(), true, false);
    let r = ask_server(&mut c, r#"{"jsonrpc":"2.0","id":1,"method":"initialize"}"#);
    let result = sent(&r.actions)[0].get("result").unwrap().clone();
    assert_eq!(result.text_field("protocolVersion"), Some(PROTOCOL_VERSION));
    assert_eq!(result.text_field("defaultMode"), Some("bypass"));
    assert_eq!(result.uint_field("contextWindow"), Some(200_000));
    assert_eq!(result.array_field("skills").unwrap().len(), 1);
}

#[test]
fn a_request_without_a_session_is_refused() {
    let mut c = Connection::new(info(), false, false);
    for method in ["session/prompt", "session/context", "session/reload_config", "nonsense"] {
        let r = ask_server(
            &mut c,
            &format!(r#"{{"jsonrpc":"2.0","id":1,"method":"{method}","params":{{"text":"x"}}}}"#),
        );
        assert!(is_error(&sent(&r.actions)[0]), "{method}");
        assert_eq!(r.call, Call::Nothing);
    }
    assert!(!c.has_session());
    assert!(matches!(c.hear("not json"), Heard::Noise));
}

#[test]
fn a_prompt_is_answered_when_its_turn_is_done() {
    let (mut c, _) = with_session();
    let r = ask_server(
        &mut c,
        r#"{"jsonrpc":"2.0","id":7,"method":"session/prompt","params":{"text":"go"}}"#,
    );
    assert!(r.actions.contains(&Action::Prompt("go".to_string(), Vec::new())), "{:?}", r.actions);
    let done = EngineEvent::TurnDone {
        outcome: json(r#"{"kind":"done"}"#),
        usage: json("{}"),
        mispredictions: 0,
    };
    let (_, frames) = c.on_event(&done, &[]);
    assert!(frames.iter().any(|f| f.uint_field("id") == Some(7)), "{frames:?}");
}

#[test]
fn a_permission_is_asked_and_its_answer_taken_once() {
    let (mut c, _) = with_session();
    let event = EngineEvent::Ask { summary: "bash: ls".to_string(), protected_why: None };
    let (id, frames) = c.on_event(&event, &[]);
    let id = id.unwrap();
    assert_eq!(frames[0].text_field("method"), Some("session/request_permission"));
    let line = format!(r#"{{"jsonrpc":"2.0","id":{id},"result":{{"allow":true}}}}"#);
    assert!(matches!(c.hear(&line), Heard::Response(Answer::Ask(i, AskReply::Allow)) if i == id));
    assert!(matches!(c.hear(&line), Heard::Response(Answer::Nothing)));

    let (id, frames) = c.on_event(&EngineEvent::EgressAsk { host: "h".to_string() }, &[]);
    assert_eq!(frames[0].text_field("method"), Some("session/request_egress"));
    let line = format!(r#"{{"jsonrpc":"2.0","id":{},"error":{{}}}}"#, id.unwrap());
    assert!(matches!(
        c.hear(&line),
        Heard::Response(Answer::Egress(_, EgressDecision::NoAnswer))
    ));
}

#[test]
fn the_session_is_steered_by_requests() {
    let (mut c, _) = with_session();
    let mut act = |method: &str, params: &str| {
        let line = format!(
            r#"{{"jsonrpc":"2.0","id":2,"method":"session/{method}","params":{params}}}"#
        );
        ask_server(&mut c, &line).actions
    };
    assert!(act("rename", r#"{"name":" x "}"#).contains(&Action::Rename("x".to_string())));
    assert!(act("set_mode", r#"{"mode":"ask"}"#).contains(&Action::SetMode(PermissionMode::Ask)));
    assert!(act("set_plan", r#"{"plan":true}"#).contains(&Action::SetPlan(true)));
    assert!(act("set_effort", r#"{"effort":"low"}"#)
        .contains(&Action::SetEffort(Some(Effort::Low))));
    assert!(act("cancel", "{}").contains(&Action::Interrupt));
    assert!(act("steer", r#"{"text":"left"}"#)
        .contains(&Action::Steer("left".to_string(), Vec::new())));
    for (method, params) in [
        ("rename", r#"{"name":"  "}"#),
        ("set_mode", r#"{"mode":"byapss"}"#),
        ("set_plan", r#"{"plan":"yes"}"#),
        ("set_effort", r#"{"effort":"huge"}"#),
        ("prompt", "{}"),
    ] {
        let actions = act(method, params);
        assert_eq!(actions.len(), 1, "{method}");
        assert!(is_error(&sent(&actions)[0]), "{method}");
    }
}

#[test]
fn a_failed_open_changes_nothing_and_a_new_one_has_a_new_handle() {
    let (mut c, first) = with_session();
    let actions = c.opened(&Json::Uint(3), false, &Err("no such session".to_string()));
    assert!(is_error(&sent(&actions)[0]));
    assert!(c.has_session());
    let actions = c.opened(&Json::Uint(4), false, &Ok(open()));
    let second = sent(&actions)
        .iter()
        .find_map(|j| j.get("result").and_then(|r| r.text_field("sessionId")).map(|s| s.to_string()))
        .unwrap();
    assert_ne!(first, second);
    assert!(actions.contains(&Action::Retire));
    assert!(c.sessions_left() && c.ids_left());
}

#[test]
fn a_reload_opens_the_same_session_again() {
    let (mut c, _) = with_session();
    let r = ask_server(
        &mut c,
        r#"{"jsonrpc":"2.0","id":5,"method":"session/reload_config","params":{}}"#,
    );
    let Call::Reload { id } = r.call else { panic!("{:?}", r.call) };
    let r = c.reloaded(&id, Ok((info(), vec!["w".to_string()])));
    let Call::Reopen { spec, id, warnings } = r.call else { panic!("{:?}", r.call) };
    assert!(matches!(&spec, SessionSpec::Load { session_id, .. } if session_id == "01J"));
    let actions = c.reopened(&id, &warnings, &Ok(open()));
    assert!(!is_error(&sent(&actions)[0]));
    let r = c.reloaded(&id, Err("bad config".to_string()));
    assert!(is_error(sent(&r.actions).last().unwrap()));
    assert_eq!(r.call, Call::Nothing);
    assert!(is_error(&sent(&c.context_known(&Json::Uint(9), &None))[0]));
}

#[test]
fn a_failed_reopen_leaves_no_session() {
    let (mut c, first) = with_session();
    let r = c.reloaded(&Json::Uint(5), Ok((info(), Vec::new())));
    let Call::Reopen { id, warnings, .. } = r.call else { panic!("{:?}", r.call) };
    let actions = c.reopened(&id, &warnings, &Err("gone".to_string()));
    assert_eq!(actions[0], Action::Retire);
    assert_eq!(actions.len(), 2);
    let said = sent(&actions)[0].get("error").and_then(|e| e.text_field("message").map(|s| s.to_string()));
    assert_eq!(said.as_deref(), Some("config reloaded but session re-open failed: gone"));
    assert!(!c.has_session());
    // A new session is the way back, under a handle of its own.
    let actions = c.opened(&Json::Uint(6), false, &Ok(open()));
    assert!(!actions.contains(&Action::Retire));
    assert!(c.has_session());
    let second = sent(&actions)
        .iter()
        .find_map(|j| j.get("result").and_then(|r| r.text_field("sessionId")).map(|s| s.to_string()))
        .unwrap();
    assert_ne!(first, second);
}
