//! Shell hooks, the headless surface, and the small tools underneath.
use hotl::json::Json;
use hotl::measure::{decimal_wide, round_to_double, tenths, EXACT};
use hotl::shell_hooks::{
    additional_context, decode_pre_tool, decode_stop, load, matching, notification_payload,
    parse_matcher, post_tool_payload, pre_tool_payload, prompt_payload, refine,
    session_end_payload, stop_payload, HookRun, HookSpec, Matcher, NotificationKind,
    PreToolDecision, ShellHook, StopDecision, MAX_STRIKES,
};
use hotl::surface::{
    exit_code, sigint_escalation, Outcome, Out, Refusal, Surface, SurfaceEvent,
};
use hotl::text;
use hotl::winargs::{advance, command_line, launch, LaunchStep, Progress};

fn spec(event: &str, command: &str) -> HookSpec {
    HookSpec {
        event: event.to_string(),
        command: command.to_string(),
        matcher: None,
        env: Vec::new(),
    }
}

fn said(text: &str) -> HookRun {
    HookRun::Ended { success: true, stdout: text.as_bytes().to_vec() }
}

fn hook(event: &str) -> ShellHook {
    let mut hooks = load(vec![spec(event, "guard")]).unwrap();
    match event {
        "pre_tool" => hooks.pre.pop(),
        "post_tool" => hooks.post.pop(),
        "user_prompt" => hooks.prompt.pop(),
        _ => hooks.stop.pop(),
    }
    .unwrap()
}

#[test]
fn pre_hook_denies_over_stdio() {
    let mut h = hook("pre_tool");
    let (answer, _) = h.settle(said(r#"{"decision":"deny","message":"shell says no"}"#));
    assert_eq!(
        decode_pre_tool(&answer),
        PreToolDecision::Deny { message: "shell says no".into() }
    );
    assert_eq!(pre_tool_payload("bash", Json::object()).text_field("tool"), Some("bash"));
}

#[test]
fn post_hook_replaces_result_and_none_when_unconfigured() {
    let mut h = hook("post_tool");
    let (answer, _) = h.settle(said(r#"{"result":"cleaned"}"#));
    assert_eq!(refine(None, &answer).as_deref(), Some("cleaned"));
    assert_eq!(refine(Some("kept".to_string()), &None).as_deref(), Some("kept"));
    assert_eq!(
        post_tool_payload("read", &None, "raw output").text_field("result"),
        Some("raw output")
    );
    // A config with no hooks loads as None.
    assert!(load(Vec::new()).is_none());
}

#[test]
fn failing_hook_is_evicted_after_three_strikes() {
    let mut h = hook("pre_tool");
    let mut evictions = 0;
    // A failing hook is a no-op (continue), and after 3 strikes it's evicted
    // (still continue — a hook can block but never grant).
    for _ in 0..5 {
        if !h.active() {
            continue;
        }
        let (answer, note) =
            h.settle(HookRun::Ended { success: false, stdout: br#"{"decision":"deny"}"#.to_vec() });
        assert_eq!(decode_pre_tool(&answer), PreToolDecision::Continue);
        evictions += note.is_some() as usize;
    }
    assert!(h.strikes >= MAX_STRIKES);
    assert_eq!(evictions, 1);
}

#[test]
fn matcher_scopes_a_shell_hook_to_named_tools() {
    let mut s = spec("pre_tool", "guard");
    s.matcher = Some("bash".to_string());
    let hooks = load(vec![s, spec("pre_tool", "other")]).unwrap();
    assert_eq!(matching(&hooks.pre, "bash"), vec![0, 1]);
    // `read` doesn't match the `bash`-only matcher — no-op.
    assert_eq!(matching(&hooks.pre, "read"), vec![1]);
    assert_eq!(parse_matcher(None), Matcher::All);
    assert!(parse_matcher(Some("bash, edit")).matches("edit"));
    assert!(!parse_matcher(Some("bash, edit")).matches("read"));
}

#[test]
fn user_prompt_hook_returns_additional_context_via_the_claude_schema_shape() {
    let mut h = hook("user_prompt");
    let (answer, _) = h.settle(said(r#"{"hookSpecificOutput":{"additionalContext":"X"}}"#));
    assert_eq!(additional_context(&answer).as_deref(), Some("X"));
    assert_eq!(prompt_payload("hello").text_field("prompt"), Some("hello"));
}

#[test]
fn stop_hook_can_block_with_a_reason() {
    let mut h = hook("stop");
    let (answer, _) = h.settle(said(r#"{"decision":"block","reason":"not yet"}"#));
    assert_eq!(decode_stop(&answer), StopDecision::Block { reason: "not yet".into() });
    assert_eq!(decode_stop(&None), StopDecision::Allow);
    assert_eq!(stop_payload("done").text_field("outcome"), Some("done"));
}

#[test]
fn identity_env_is_not_spoofable_by_a_hooks_own_env_table() {
    // The hook's own `env` table tries to set HOTL_HOOK_EVENT to a lie;
    // the real event ("stop") must still win because identity env is
    // applied strictly after the hook's own env.
    let mut s = spec("stop", "guard");
    s.env = vec![("HOTL_HOOK_EVENT".to_string(), "spoofed-should-not-win".to_string())];
    let hooks = load(vec![s]).unwrap();
    let seen = hooks.stop[0].environment("stop");
    let last = seen.iter().rev().find(|(k, _)| k == "HOTL_HOOK_EVENT").unwrap();
    assert_eq!(
        last.1, "stop",
        "the hook must see the real event, not the one its own env tried to set"
    );
}

#[test]
fn silent_and_broken_answers_decide_nothing() {
    for run in [
        HookRun::Lost,
        said(""),
        said("not json"),
        HookRun::Ended { success: true, stdout: vec![0xff, 0xfe] },
    ] {
        let mut h = hook("pre_tool");
        let (answer, _) = h.settle(run);
        assert_eq!(decode_pre_tool(&answer), PreToolDecision::Continue);
    }
    let mut h = hook("pre_tool");
    let (answer, _) = h.settle(said(r#"{"decision":"rewrite","input":{"command":"ls"}}"#));
    assert!(matches!(decode_pre_tool(&answer), PreToolDecision::Rewrite { .. }), "{answer:?}");
}

#[test]
fn notification_and_session_end_hooks_run_without_error() {
    let hooks =
        load(vec![spec("notification", "cat"), spec("session_end", "cat"), spec("nonsense", "x")])
            .unwrap();
    assert_eq!(hooks.notification.len(), 1);
    assert_eq!(hooks.session_end.len(), 1);
    assert_eq!(
        notification_payload(NotificationKind::Blocked, "waiting").text_field("detail"),
        Some("waiting")
    );
    assert!(session_end_payload().text_field("event").is_some());
}

#[test]
fn a_second_sigint_stops_waiting_with_the_interrupt_exit_code() {
    assert_eq!(sigint_escalation(false), None, "first ctrl-c interrupts");
    assert_eq!(sigint_escalation(true), Some(130), "second ctrl-c exits");
}

fn done(outcome: Outcome) -> SurfaceEvent {
    SurfaceEvent::TurnDone { outcome, input: 10, output: 20, cache_read: 5 }
}

#[test]
fn a_turn_that_ends_ends_the_run() {
    let mut s = Surface::new(false, 100, "m".to_string());
    s.on_event(&SurfaceEvent::TextDelta("hi".to_string()));
    let (outs, code) = s.on_event(&done(Outcome::Done));
    assert_eq!(code, Some(0));
    assert!(
        outs.contains(&Out::Note("[m · in 10 out 20 cache-read 5]".to_string())),
        "{outs:?}"
    );
    for outcome in [Outcome::Cancelled, Outcome::TurnLimit, Outcome::Refused] {
        assert_ne!(exit_code(&outcome), 0);
    }
    assert_ne!(exit_code(&Outcome::Error { message: "x".to_string() }), 0);
}

#[test]
fn headless_asks_are_refused_once_each() {
    let mut s = Surface::new(false, 100, "m".to_string());
    let (outs, code) = s.on_event(&SurfaceEvent::Ask { summary: "rm".to_string() });
    assert_eq!(code, None);
    assert_eq!(outs.iter().filter(|o| matches!(o, Out::Reply(_))).count(), 1);
    assert!(outs.contains(&Out::Reply(Refusal::DenyAsk)));
    let (outs, _) = s.on_event(&SurfaceEvent::EgressAsk { host: "h".to_string() });
    assert!(outs.contains(&Out::Reply(Refusal::NoEgressAnswer)));
    let (outs, _) = s.on_event(&SurfaceEvent::Question { header: "q".to_string() });
    assert!(outs.contains(&Out::Reply(Refusal::NoHuman)));
    let (_, first) = s.on_interrupt();
    let (_, second) = s.on_interrupt();
    assert_eq!((first, second), (None, Some(130)));
}

#[test]
fn json_events_pass_as_frames() {
    let mut s = Surface::new(true, 100, "m".to_string());
    let (outs, _) = s.on_event(&SurfaceEvent::TextDelta("hi".to_string()));
    assert_eq!(outs, vec![Out::Frame]);
}

#[test]
fn arguments_are_quoted_for_the_windows_parser() {
    let line = |args: &[&str]| {
        let all: Vec<String> = args.iter().map(|s| s.to_string()).collect();
        let wide = command_line(&all);
        String::from_utf16(&wide).unwrap().trim_end_matches('\0').to_string()
    };
    assert_eq!(line(&["a", "b c"]), "\"a\" \"b c\"");
    assert_eq!(line(&["a\"b"]), "\"a\\\"b\"");
    assert_eq!(line(&["a b\\"]), "\"a b\\\\\"");
    assert_eq!(line(&["", "x"]), "\"\" \"x\"");
}

#[test]
fn a_child_starts_only_when_it_is_confined() {
    let args = ["cmd".to_string()];
    let mut step = match launch(&args) {
        Progress::Do(s) => s,
        other => panic!("{other:?}"),
    };
    let mut seen = vec![step];
    loop {
        match advance(step, Ok(7)) {
            Progress::Do(next) => {
                seen.push(next);
                step = next;
            }
            Progress::Exited(code) => {
                assert_eq!(code, 7);
                break;
            }
            Progress::Refused(e) => panic!("{e}"),
        }
    }
    let spawn = seen.iter().position(|s| *s == LaunchStep::Spawn).unwrap();
    let token = seen.iter().position(|s| *s == LaunchStep::RestrictToken).unwrap();
    assert!(token < spawn);
    assert!(matches!(
        advance(LaunchStep::RestrictToken, Err("denied".to_string())),
        Progress::Refused(e) if e.contains("denied")
    ));
    assert!(matches!(launch(&[]), Progress::Refused(_)));
}

#[test]
fn sizes_round_as_a_double_does() {
    assert_eq!(decimal_wide(0), "0");
    assert_eq!(decimal_wide(340_282_366_920_938_463_463), "340282366920938463463");
    assert_eq!(round_to_double(7), 7);
    // The first integer that no double holds, and the even neighbour.
    assert_eq!(EXACT, 1 << 53);
    assert_eq!(round_to_double((1 << 53) + 1), 1 << 53);
    assert_eq!(tenths(1536, 1024), "1.5");
    for n in [0u64, 1, 51, 52, 1024, 999_999, 123_456_789_012_345_678, u64::MAX] {
        assert_eq!(tenths(n, 1024), format!("{:.1}", n as f64 / 1024.0), "{n}");
    }
}

#[test]
fn texts_are_taken_character_by_character() {
    assert_eq!(text::trim(" \t\u{2003}a b\n"), "a b");
    assert_eq!(text::split("a,b,,c", ','), vec!["a", "b", "", "c"]);
    assert_eq!(text::lines("a\r\nb\n\nc"), vec!["a", "b", "", "c"]);
    assert_eq!(text::join(&["a".to_string(), "b".to_string()], ", "), "a, b");
    assert_eq!(text::parse_unsigned("+42", u64::MAX), Some(42));
    assert_eq!(text::parse_unsigned("18446744073709551616", u64::MAX), None);
    assert_eq!(text::parse_unsigned("", u64::MAX), None);
    assert_eq!(text::parse_unsigned("256", 255), None);
    assert_eq!(text::parse_signed("-9223372036854775808"), Some(i64::MIN));
    assert_eq!(text::parse_signed("9223372036854775808"), None);
    assert_eq!(text::decimal(1_000_203), "1000203");
    assert_eq!(text::decimal_signed(i64::MIN), "-9223372036854775808");
    assert_eq!(text::ascii_lower("ÄbC"), "Äbc");
    assert_eq!(text::split_once("a=b=c", '='), Some(("a", "b=c")));
    assert!(text::contains("héllo", "él") && !text::contains("hello", "lL"));
    assert_eq!(
        text::sort_texts(vec!["b".to_string(), "a".to_string(), "aa".to_string()]),
        vec!["a", "aa", "b"]
    );
}

#[test]
fn a_silent_hook_says_continue() {
    let quiet = hotl::shell_hooks::spoken(None);
    assert_eq!(quiet.text_field("decision"), Some("continue"));
    let loud = Json::object().with("decision", Json::text("deny"));
    assert_eq!(hotl::shell_hooks::spoken(Some(loud.clone())), loud);
}
