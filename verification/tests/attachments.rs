//! Image attachments, their encoding, and the clipboard.
use hotl::base64::encode;
use hotl::clipboard::{copy, emit_osc52, native_candidates, osc52, tmux_argv, Os};
use hotl::images::{
    decoded_len, parse_images, MAX_IMAGES_PER_PROMPT, MAX_IMAGE_DECODED_BYTES,
    MAX_PROMPT_DECODED_BYTES,
};
use hotl::json::Json;

/// The value that a JSON text denotes.
fn json(text: &str) -> Json {
    from_value(serde_json::from_str::<serde_json::Value>(text).unwrap())
}

fn from_value(v: serde_json::Value) -> Json {
    match v {
        serde_json::Value::Null => Json::Null,
        serde_json::Value::Bool(b) => Json::Bool(b),
        serde_json::Value::Number(n) => match n.as_u64() {
            Some(u) => Json::Uint(u),
            None => Json::Number(n.to_string()),
        },
        serde_json::Value::String(s) => Json::Str(s),
        serde_json::Value::Array(a) => Json::Arr(a.into_iter().map(from_value).collect()),
        serde_json::Value::Object(o) => {
            Json::Obj(o.into_iter().map(|(k, v)| (k, from_value(v))).collect())
        }
    }
}

fn img(media_type: &str, data: &str) -> Json {
    Json::object().with(
        "images",
        Json::array(vec![Json::object()
            .with("media_type", Json::text(media_type))
            .with("data", Json::text(data))]),
    )
}

#[test]
fn absent_or_null_images_parse_to_empty() {
    assert_eq!(parse_images(&json(r#"{"text": "hi"}"#)), Ok(Vec::new()));
    assert_eq!(parse_images(&json(r#"{"images": null}"#)), Ok(Vec::new()));
}

#[test]
fn a_valid_image_round_trips() {
    let got = parse_images(&img("image/png", "aW1nMQ==")).unwrap();
    assert_eq!(got.len(), 1);
    assert_eq!(got[0].media_type, "image/png");
    assert_eq!(&*got[0].data, "aW1nMQ==");
}

#[test]
fn bad_shapes_are_rejected_with_a_reason() {
    for (params, needle) in [
        (json(r#"{"images": "nope"}"#), "must be an array"),
        (img("image/tiff", "aW1n"), "not one of"),
        (json(r#"{"images": [{"data": "aW1n"}]}"#), "missing media_type"),
        (json(r#"{"images": [{"media_type": "image/png"}]}"#), "missing data"),
        (img("image/png", "data:image/png;base64,aW1n"), "data: URL"),
        (img("image/png", "abc"), "length % 4"),
        (img("image/png", ""), "non-empty"),
        (img("image/png", "aW!n"), "non-base64 character"),
        (img("image/png", "a==="), "more than two"),
    ] {
        let err = parse_images(&params).unwrap_err();
        assert!(err.contains(needle), "{params:?} -> {err}");
    }
}

#[test]
fn caps_are_enforced_on_count_and_decoded_size() {
    let many: Vec<Json> = (0..MAX_IMAGES_PER_PROMPT + 1)
        .map(|_| json(r#"{"media_type": "image/png", "data": "aW1n"}"#))
        .collect();
    let err = parse_images(&Json::object().with("images", Json::array(many))).unwrap_err();
    assert!(err.contains("per-prompt cap"), "{err}");

    // A base64 string whose decoded size exceeds the per-image cap; the
    // charset check sees only 'A's, so this stays cheap to construct.
    let big = "A".repeat((MAX_IMAGE_DECODED_BYTES / 3 + 1) * 4);
    let err = parse_images(&img("image/png", &big)).unwrap_err();
    assert!(err.contains("per-image cap"), "{err}");
}

#[test]
fn decoded_len_matches_the_padding_math() {
    assert_eq!(decoded_len("aW1n"), Ok(3));
    assert_eq!(decoded_len("aW1nMQ=="), Ok(4));
    assert_eq!(decoded_len("aW1nMTI="), Ok(5));
}

#[test]
fn the_total_of_a_prompt_is_capped() {
    let size = MAX_IMAGE_DECODED_BYTES / 3;
    let one = "A".repeat(size * 4);
    let count = MAX_PROMPT_DECODED_BYTES / (size * 3) + 1;
    let many: Vec<Json> = (0..count)
        .map(|_| {
            Json::object()
                .with("media_type", Json::text("image/png"))
                .with("data", Json::text(&one))
        })
        .collect();
    let err = parse_images(&Json::object().with("images", Json::array(many))).unwrap_err();
    assert!(err.contains("cap"), "{err}");
}

#[test]
fn a_refused_type_and_character_are_quoted() {
    let err = parse_images(&img("image/\"x\"", "aW1n")).unwrap_err();
    assert!(err.contains("\"image/\\\"x\\\"\""), "{err}");
    let err = decoded_len("aW\nn").unwrap_err();
    assert!(err.contains("'\\n'"), "{err}");
    assert!(decoded_len("a=bc").is_err());
}

#[test]
fn base64_pads_to_whole_groups() {
    assert_eq!(encode(b""), "");
    assert_eq!(encode(b"M"), "TQ==");
    assert_eq!(encode(b"Ma"), "TWE=");
    assert_eq!(encode(b"Man"), "TWFu");
    assert_eq!(encode(&[0xff, 0xfe, 0xfd, 0x00]), "//79AA==");
    // What is encoded measures as what went in.
    for n in 1..20usize {
        assert_eq!(decoded_len(&encode(&vec![7u8; n])), Ok(n));
    }
}

#[test]
fn the_clipboard_escape_is_a_well_formed_osc_52() {
    // `ESC ] 52 ; c ; <base64> BEL` — `c` is the clipboard selection.
    assert_eq!(osc52("hi"), "\x1b]52;c;aGk=\x07");
    // Newlines are payload, not terminators: a multi-line copy must not
    // truncate at the first one.
    assert_eq!(osc52("a\nb"), "\x1b]52;c;YQpi\x07");
}

#[test]
fn emit_osc52_writes_the_escape_to_the_given_writer() {
    // The in-band sink is tested against a buffer so it drives no
    // subprocess and touches no real clipboard.
    let mut buf: Vec<u8> = Vec::new();
    emit_osc52(&mut buf, "hi");
    assert_eq!(buf, b"\x1b]52;c;aGk=\x07");
}

#[test]
fn the_tmux_sink_is_present_exactly_under_tmux() {
    // Off tmux there is nothing to route around; under it we always add the
    // `-w` forward, which is what makes the copy survive `set-clipboard
    // external` and `allow-passthrough off`.
    assert_eq!(tmux_argv(false), None);
    assert_eq!(
        tmux_argv(true),
        Some(["tmux", "load-buffer", "-w", "-"].iter().map(|s| s.to_string()).collect())
    );
}

#[test]
fn a_native_clipboard_program_exists_for_this_os() {
    // A bare OSC 52 is not enough on a terminal that never implemented it,
    // so every OS must offer at least one native fallback.
    for os in [Os::Mac, Os::Windows, Os::Other] {
        let candidates = native_candidates(os);
        assert!(!candidates.is_empty());
        assert!(candidates.iter().all(|argv| !argv.is_empty()));
    }
    assert_eq!(native_candidates(Os::Mac)[0], vec!["pbcopy".to_string()]);
}

#[test]
fn a_copy_emits_the_escape_and_then_the_programs() {
    let mut buf: Vec<u8> = b"x".to_vec();
    let runs = copy(&mut buf, "\x07\x1b", true, Os::Mac);
    assert_eq!(buf, b"x\x1b]52;c;Bxs=\x07");
    assert_eq!(runs[0][0], "tmux");
    assert_eq!(runs[1], vec!["pbcopy".to_string()]);
    assert_eq!(runs.len(), 2);
}
