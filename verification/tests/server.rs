//! The session server and the clients that attach to it.
use hotl::approve_cli;
use hotl::approve_cli::{describe, listing, parked_frame, parse, settle};
use hotl::attach::{
    action_frame, action_hint, list_sessions, resolve, route, update_line, Action, Client, Parked,
    Shown,
};
use hotl::engine::{opt_json, AskReply, EgressDecision, EngineEvent, QuestionAnswer};
use hotl::json::Json;
use hotl::session_server::{
    auth_frame_ok, auth_line, frame_line, frame_presents, mint_token, paste_hint, run_dir,
    str_field, sweep_period, token_path, tokens_match, Admission, Effect, Server,
    ASK_SWEEP_INTERVAL,
};

/// The value that a JSON text denotes.
fn json(text: &str) -> Json {
    from_value(serde_json::from_str::<serde_json::Value>(text).unwrap())
}

fn from_value(v: serde_json::Value) -> Json {
    match v {
        serde_json::Value::Null => Json::Null,
        serde_json::Value::Bool(b) => Json::Bool(b),
        serde_json::Value::Number(n) => match n.as_u64() {
            Some(u) => Json::Uint(u),
            None => Json::Number(n.to_string()),
        },
        serde_json::Value::String(s) => Json::Str(s),
        serde_json::Value::Array(a) => Json::Arr(a.into_iter().map(from_value).collect()),
        serde_json::Value::Object(o) => {
            Json::Obj(o.into_iter().map(|(k, v)| (k, from_value(v))).collect())
        }
    }
}

const SECOND: u128 = 1_000_000_000;

fn server(ask_expiry: u128) -> Server {
    Server::new("test".to_string(), "tok".to_string(), ask_expiry)
}

fn attached(ask_expiry: u128) -> Server {
    let mut s = server(ask_expiry);
    let r = s.authenticate(true, Some(r#"{"t":"auth","token":"tok"}"#), &[]);
    assert!(matches!(r, Admission::Attached { .. }), "{r:?}");
    s
}

fn ask(s: &mut Server, now: u128) -> u64 {
    let event = EngineEvent::Ask { summary: "bash: echo hi".to_string(), protected_why: None };
    s.on_event(&event, now, &[]).0.unwrap()
}

fn question(s: &mut Server, id: &str) -> (u64, Json) {
    let event = EngineEvent::Question {
        id: id.to_string(),
        header: "Approve".to_string(),
        prompt: "Ship it?".to_string(),
        options: json(r#"[{"label":"ship"},{"label":"redo"}]"#),
        multi: false,
    };
    let (id, frame) = s.on_event(&event, 0, &[]);
    (id.unwrap(), frame.unwrap())
}

fn egress(s: &mut Server, host: &str) -> (u64, Json) {
    let (id, frame) = s.on_event(&EngineEvent::EgressAsk { host: host.to_string() }, 0, &[]);
    (id.unwrap(), frame.unwrap())
}

/// What a client that attaches now is asked again.
fn parked(s: &mut Server) -> Vec<Json> {
    let mut frames = s.resend_pending(&[]);
    frames.retain(|f| matches!(f.text_field("t"), Some("ask" | "question" | "egress")));
    frames
}

fn turn_done() -> EngineEvent {
    EngineEvent::TurnDone {
        outcome: json(r#"{"kind":"done","text":""}"#),
        usage: json("{}"),
        mispredictions: 0,
    }
}

#[test]
fn question_frames_park_and_are_re_issued_on_attach() {
    let mut s = attached(3600 * SECOND);
    let (id, frame) = question(&mut s, "q1");
    assert_eq!(frame.text_field("t"), Some("question"));
    assert_eq!(frame.text_field("header"), Some("Approve"));
    assert_eq!(frame.text_field("questionId"), Some("q1"));
    assert_eq!(frame.uint_field("id"), Some(id));

    // A reattach re-issues it: the whole point of parking.
    let again = parked(&mut s);
    let re = again.iter().find(|f| f.text_field("t") == Some("question")).unwrap();
    assert_eq!(re.uint_field("id"), Some(id), "the same question, same id");

    let effect =
        s.handle_frame(&format!(r#"{{"t":"question_reply","id":{id},"option":"ship"}}"#));
    assert_eq!(
        effect,
        Effect::AnswerQuestion(id, QuestionAnswer::Selected(vec!["ship".to_string()]))
    );
    assert!(parked(&mut s).is_empty());
}

#[test]
fn a_malformed_question_reply_is_no_human() {
    let mut s = attached(3600 * SECOND);
    let (id, _) = question(&mut s, "q2");
    let effect = s.handle_frame(&format!(r#"{{"t":"question_reply","id":{id}}}"#));
    assert_eq!(effect, Effect::AnswerQuestion(id, QuestionAnswer::NoHuman));
}

#[test]
fn egress_frames_round_trip_and_a_malformed_reply_denies() {
    let mut s = attached(0);
    // 1. An allow round-trips.
    let (id, frame) = egress(&mut s, "registry.npmjs.org");
    assert_eq!(frame.text_field("host"), Some("registry.npmjs.org"));
    // Parked, so a client that reattaches later can still answer.
    assert_eq!(parked(&mut s).len(), 1);
    let effect = s.handle_frame(&format!(r#"{{"t":"egress_reply","id":{id},"allow":true}}"#));
    assert_eq!(effect, Effect::AnswerEgress(id, EgressDecision::Allow));

    // 2. A reply with no `allow` field denies — asserted, not assumed.
    let (id, _) = egress(&mut s, "evil.example");
    let effect = s.handle_frame(&format!(r#"{{"t":"egress_reply","id":{id}}}"#));
    assert_eq!(effect, Effect::AnswerEgress(id, EgressDecision::Deny));

    // 3. A dead reply channel is swept on TurnDone, so it never re-issues
    //    to a reattaching client.
    let (id, _) = egress(&mut s, "stale.example");
    let (_, frame) = s.on_event(&turn_done(), 0, &[id]);
    assert_eq!(frame.unwrap().text_field("t"), Some("turn_done"));
    assert!(
        parked(&mut s).is_empty(),
        "a dead egress reply channel must not survive the turn"
    );
}

#[test]
fn a_parked_ask_expires_and_is_denied() {
    let mut s = attached(SECOND / 5);
    let id = ask(&mut s, 0);
    let swept = s.sweep_expired_asks(SECOND);
    assert_eq!(swept.asks, vec![id]);
    let notice = swept.notice.expect("the client is told the ask expired");
    assert_eq!(notice.text_field("t"), Some("error"));
    assert!(notice.text_field("message").unwrap().contains("expired"));
    // A second answer finds nothing.
    assert_eq!(
        s.handle_frame(&format!(r#"{{"t":"ask_reply","id":{id},"allow":true}}"#)),
        Effect::Nothing
    );
}

#[test]
fn the_ask_expiry_never_touches_a_parked_question() {
    let mut s = server(3600 * SECOND);
    let id = ask(&mut s, 0);
    let (q, _) = question(&mut s, "q");
    // Both are two hours old; only the permission ask expires.
    let swept = s.sweep_expired_asks(7200 * SECOND);
    assert_eq!(swept.asks, vec![id]);
    // Still answerable, which is the whole point.
    let effect =
        s.handle_frame(&format!(r#"{{"t":"question_reply","id":{q},"option":"ship"}}"#));
    assert_eq!(
        effect,
        Effect::AnswerQuestion(q, QuestionAnswer::Selected(vec!["ship".to_string()]))
    );
}

#[test]
fn the_sweep_denies_only_what_is_past_the_deadline() {
    let mut s = server(3600 * SECOND);
    let old = ask(&mut s, 0);
    let fresh = ask(&mut s, 7200 * SECOND);
    let swept = s.sweep_expired_asks(7200 * SECOND);
    assert_eq!(swept.asks, vec![old]);
    assert_eq!(swept.message, "expired after 3600 s with no human");
    let left = parked(&mut s);
    assert_eq!(left.len(), 1, "the fresh ask stays");
    assert_eq!(left[0].uint_field("id"), Some(fresh));
    // With no expiry nothing is ever swept.
    let mut s = server(0);
    ask(&mut s, 0);
    assert!(s.sweep_expired_asks(u128::MAX).asks.is_empty());
}

#[test]
fn detach_while_asking_then_reattach_reissues_the_ask() {
    let mut s = attached(0);
    assert!(matches!(s.handle_frame(r#"{"t":"prompt","text":"go"}"#), Effect::Prompt(t, _) if t == "go"));
    let ask_id = ask(&mut s, 0);

    // Detach WITHOUT answering — the session (and the parked ask) live on.
    assert_eq!(s.handle_frame(r#"{"t":"detach"}"#), Effect::Detach);
    s.detach();
    assert!(!s.is_attached());

    // Reattach: the parked ask is re-issued (the whole point).
    let Admission::Attached { frames, .. } =
        s.authenticate(true, Some(r#"{"t":"auth","token":"tok"}"#), &[])
    else {
        panic!("refused");
    };
    let reissued = frames.iter().find(|f| f.text_field("t") == Some("ask")).unwrap();
    assert_eq!(
        reissued.uint_field("id"),
        Some(ask_id),
        "the same parked ask must re-issue on reattach"
    );

    // Answer it → the turn completes.
    assert_eq!(
        s.handle_frame(&format!(r#"{{"t":"ask_reply","id":{ask_id},"allow":true}}"#)),
        Effect::AnswerAsk(ask_id, AskReply::Allow)
    );
    let (_, done) = s.on_event(&turn_done(), 0, &[]);
    assert_eq!(done.unwrap().get("outcome").unwrap().text_field("kind"), Some("done"));
}

#[test]
fn unauthenticated_connect_is_rejected_and_keeps_the_incumbent() {
    let mut s = attached(0);
    let id = ask(&mut s, 0);
    // A client connects with the WRONG token: rejected outright.
    let r = s.authenticate(true, Some(r#"{"t":"auth","token":"WRONG"}"#), &[]);
    let Admission::Refused(Some(said)) = r else {
        panic!("an unauthenticated connect must be rejected: {r:?}");
    };
    assert!(!said.is_empty());
    assert!(matches!(s.authenticate(false, Some(r#"{"t":"auth","token":"tok"}"#), &[]), Admission::Refused(_)));
    assert!(matches!(s.authenticate(true, None, &[]), Admission::Refused(_)));
    // The incumbent was never evicted — it answers its ask.
    assert!(s.is_attached());
    assert_eq!(
        s.handle_frame(&format!(r#"{{"t":"ask_reply","id":{id},"allow":true}}"#)),
        Effect::AnswerAsk(id, AskReply::Allow)
    );
}

#[test]
fn a_second_client_takes_over_with_a_farewell() {
    let mut s = attached(0);
    let Admission::Attached { farewell, .. } =
        s.authenticate(true, Some(&auth_line("tok")), &[])
    else {
        panic!("refused");
    };
    assert_eq!(farewell.unwrap().text_field("t"), Some("detached"));
}

#[test]
fn tokens_and_frames_are_compared_in_full() {
    assert!(tokens_match("abc", "abc"));
    assert!(!tokens_match("abc", "abd") && !tokens_match("abc", "ab") && !tokens_match("", "a"));
    assert_eq!(mint_token(&[0x00, 0x0f, 0xa5]), "000fa5");
    assert!(auth_frame_ok(&auth_line("tok"), "tok"));
    assert!(!auth_frame_ok("not json", "tok") && !auth_frame_ok(r#"{"t":"auth"}"#, "tok"));
    assert!(frame_presents(&json(r#"{"t":"auth","token":"tok"}"#), "tok"));
    assert_eq!(run_dir("/d/hotl"), "/d/hotl/run");
    assert!(token_path("/d/hotl", "s1").starts_with("/d/hotl/run/"));
    assert!(paste_hint("h.example").contains("h.example"));
    assert_eq!(str_field(&json(r#"{"a":"b"}"#), "a"), "b");
    assert_eq!(str_field(&json(r#"{"a":1}"#), "a"), "");
    assert_eq!(opt_json(None), Json::Null);
    assert_eq!(opt_json(Some("x")), Json::text("x"));
}

#[test]
fn a_frame_is_one_line_with_its_members_in_order() {
    let frame = Json::object().with("t", Json::text("a\nb")).with("id", Json::Uint(3));
    assert_eq!(frame_line(&frame), "{\"id\":3,\"t\":\"a\\nb\"}\n");
    let deep = json(r#"{"z":[1,-2,2.50,null,true,{"b":"x","a":[]}]}"#);
    assert_eq!(frame_line(&deep), "{\"z\":[1,-2,2.5,null,true,{\"a\":[],\"b\":\"x\"}]}\n");
}

#[test]
fn the_sweep_runs_within_the_deadline() {
    assert_eq!(sweep_period(3600 * SECOND), ASK_SWEEP_INTERVAL);
    assert!(sweep_period(SECOND / 5) <= SECOND / 5);
}

#[test]
fn other_frames_steer_the_session() {
    let mut s = attached(0);
    assert_eq!(s.handle_frame(r#"{"t":"cancel"}"#), Effect::Interrupt);
    assert_eq!(s.handle_frame(r#"{"t":"continue"}"#), Effect::Continue);
    assert!(matches!(s.handle_frame(r#"{"t":"steer","text":"left"}"#), Effect::Steer(t, _) if t == "left"));
    assert!(matches!(
        s.handle_frame(r#"{"t":"prompt","text":"x","images":"nope"}"#),
        Effect::Refuse(_)
    ));
    assert_eq!(s.handle_frame("not json"), Effect::Nothing);
    assert_eq!(s.handle_frame(r#"{"t":"ask_reply","id":99,"allow":true}"#), Effect::Nothing);
    let before = s.ids_left();
    ask(&mut s, 0);
    assert_eq!(s.ids_left(), before - 1);
}

#[test]
fn attach_renders_every_update_variant() {
    // The two deliberate `None`s, each for a stated reason: `text_delta`
    // is the answer itself (streamed to stdout unadorned), and a tool that
    // *succeeded* needs no line — its output already spoke.
    for frame in [
        r#"{"type":"thinking_delta","text":"mm"}"#,
        r#"{"type":"tool_start","name":"read","summary":"read ./x"}"#,
        r#"{"type":"tool_denied","name":"write"}"#,
        r#"{"type":"tool_auto_allowed","name":"bash","rule":"ls*"}"#,
        r#"{"type":"retrying","attempt":1,"reason":"429"}"#,
        r#"{"type":"fallback_model","model":"m2"}"#,
        r#"{"type":"prompt_queued"}"#,
        r#"{"type":"compacted","degraded":false}"#,
        r#"{"type":"todos_changed","items":[]}"#,
    ] {
        assert!(update_line(&json(frame)).is_some(), "attach drops `{frame}`");
    }
    assert!(update_line(&json(r#"{"type":"text_delta","text":"hi"}"#)).is_none());
    assert!(update_line(&json(r#"{"type":"tool_done","name":"read","ok":true}"#)).is_none());
    // A tool that failed does get a line — the exemption is about success.
    let failed = json(r#"{"type":"tool_done","name":"read","ok":false}"#);
    assert!(update_line(&failed).is_some(), "a tool error must be shown");
}

#[test]
fn typed_lines_route_correctly() {
    let ask = Parked { id: 4, egress: None };
    assert_eq!(route("/stop", false, None), Action::Stop);
    assert_eq!(
        route("y", false, Some(&ask)),
        Action::AnswerAsk { parked: ask.clone(), allow: true }
    );
    assert_eq!(
        route("no", false, Some(&ask)),
        Action::AnswerAsk { parked: ask.clone(), allow: false }
    );
    // An egress ask routes the same way but answers a different method —
    // the kind travels with the id so it can never be mis-routed.
    let egress = Parked { id: 5, egress: Some("registry.npmjs.org".into()) };
    assert_eq!(
        route("y", false, Some(&egress)),
        Action::AnswerAsk { parked: egress, allow: true }
    );
    assert_eq!(route("", false, None), Action::Nothing);
    assert_eq!(route("hi", true, None), Action::Steer("hi".into()));
    assert_eq!(route("hi", false, None), Action::Prompt("hi".into()));
}

#[test]
fn a_line_becomes_the_frame_that_the_server_reads() {
    let mut c = Client::new();
    let shown = c.on_server_line(r#"{"t":"ask","id":7,"summary":"write x"}"#);
    assert!(shown.iter().any(|s| matches!(s, Shown::Ask(t) if t.contains("write x"))), "{shown:?}");
    let action = c.on_line("y");
    let frame = action_frame(&action, "").unwrap();
    assert_eq!(frame.text_field("t"), Some("ask_reply"));
    assert_eq!(frame.uint_field("id"), Some(7));
    assert_eq!(frame.bool_field("allow"), Some(true));
    assert!(c.pending.is_none());

    c.on_server_line(r#"{"t":"egress","id":8,"host":"h.example"}"#);
    let action = c.on_line("y");
    assert_eq!(action_frame(&action, "").unwrap().text_field("t"), Some("egress_reply"));
    assert!(action_hint(&action).unwrap().contains("h.example"));

    let action = c.on_line("go");
    assert_eq!(action_frame(&action, "go on").unwrap().text_field("text"), Some("go on"));
    assert_eq!(action_frame(&Action::Nothing, ""), None);
    assert!(c.on_server_line("not json").is_empty());
}

#[test]
fn a_session_is_found_by_its_prefix() {
    let live: Vec<String> = vec!["bg-1".to_string(), "bg-12".to_string()];
    assert_eq!(resolve("bg-12", true, &live), Some("bg-12".to_string()));
    assert_eq!(resolve("zz", false, &live), None);
    assert!(list_sessions(&live).contains("bg-12"));
    assert!(!list_sessions(&[]).is_empty());
}

#[test]
fn parse_builds_the_wire_frames_and_refuses_anything_else() {
    let s = |v: &[&str]| v.iter().map(|x| x.to_string()).collect::<Vec<_>>();
    assert_eq!(parse(&s(&[])).unwrap(), None);
    let frame = |args: &[&str]| parse(&s(args)).unwrap().unwrap();
    let f = frame(&["--ask", "3", "allow"]);
    assert_eq!(frame_line(&f), "{\"allow\":true,\"id\":3,\"t\":\"ask_reply\"}\n");
    let f = frame(&["--ask", "3", "deny"]);
    assert_eq!(frame_line(&f), "{\"allow\":false,\"id\":3,\"t\":\"ask_reply\"}\n");
    let f = frame(&["--question", "7", "ship"]);
    assert_eq!(frame_line(&f), "{\"id\":7,\"option\":\"ship\",\"t\":\"question_reply\"}\n");
    // A verdict that is neither is refused, never read as a grant.
    assert!(parse(&s(&["--ask", "3", "maybe"])).unwrap_err().contains("not `allow` or `deny`"));
    assert!(parse(&s(&["--ask", "x", "allow"])).unwrap_err().contains("takes a number"));
    assert!(parse(&s(&["--ask"])).unwrap_err().contains("the id"));
    assert!(parse(&s(&["--question", "7"])).unwrap_err().contains("option label"));
    assert!(parse(&s(&["--nope"])).unwrap_err().contains("not an option"));
}

#[test]
fn the_listing_names_the_flag_that_answers_each_item() {
    let ask = describe(&json(r#"{"t": "ask", "id": 2, "summary": "write Makefile"}"#));
    assert!(ask.contains("#2 ask — write Makefile"), "{ask}");
    assert!(ask.contains("--ask 2 allow|deny"), "{ask}");

    let q = describe(&json(
        r#"{"t": "question", "id": 5, "header": "Ship?", "prompt": "the release",
            "options": [{"label": "ship"}, {"label": "redo"}]}"#,
    ));
    assert!(q.contains("#5 question — Ship?: the release"), "{q}");
    assert!(q.contains("--question 5 <ship|redo>"), "{q}");

    let e = describe(&json(r#"{"t": "egress", "id": 9, "host": "example.com"}"#));
    assert!(e.contains("example.com") && e.contains("attach"), "{e}");
}

#[test]
fn an_approval_needs_something_parked() {
    assert!(approve_cli::USAGE.contains("--ask"));
    assert!(listing("s1", &[]).contains("s1"));
    let parked = [parked_frame(r#"{"t":"ask","id":2,"summary":"x"}"#).unwrap()];
    assert!(listing("s1", &parked).contains("#2"));
    assert!(settle("s1", 2, &parked).is_ok());
    assert!(settle("s1", 3, &parked).is_err());
    assert_eq!(parked_frame(r#"{"t":"update"}"#), None);
    assert_eq!(parked_frame("not json"), None);
}

#[test]
fn only_asks_wait_for_an_answer() {
    for t in ["ask", "question", "egress"] {
        let frame = Json::object().with("t", Json::text(t));
        assert!(approve_cli::is_waiting(&frame), "{t}");
    }
    assert!(!approve_cli::is_waiting(&Json::object().with("t", Json::text("update"))));
    assert!(!approve_cli::is_waiting(&Json::object().with("t", Json::Bool(true))));
    assert!(!approve_cli::is_waiting(&Json::object()));
    assert!(!approve_cli::is_waiting(&Json::Null));
}

#[test]
fn frames_of_any_depth_are_written_whole() {
    let mut deep = Json::Uint(7);
    for _ in 0..200 {
        deep = Json::object().with("a", deep);
    }
    let line = frame_line(&deep);
    assert!(line.starts_with("{\"a\":{\"a\":"));
    assert!(line.contains(":7}"));
    assert_eq!(line.matches('}').count(), 200);
    let mixed = Json::object()
        .with("n", Json::Number("-1.5".to_string()))
        .with("list", Json::Arr(vec![Json::Null, Json::Bool(true), Json::text("x\ny")]));
    assert_eq!(frame_line(&mixed), "{\"list\":[null,true,\"x\\ny\"],\"n\":-1.5}\n");
}
