//! Line diffs of edits and writes.
use hotl::diffgen::{
    cap, for_tool, script, trim_context, unified, written_path, DiffLine, Op, CONTEXT_LINES,
    LCS_MAX_LINES, MAX_DIFF_LINES,
};
use hotl::json::Json;

/// The value that a JSON text denotes.
fn json(text: &str) -> Json {
    from_value(serde_json::from_str::<serde_json::Value>(text).unwrap())
}

fn from_value(v: serde_json::Value) -> Json {
    match v {
        serde_json::Value::Null => Json::Null,
        serde_json::Value::Bool(b) => Json::Bool(b),
        serde_json::Value::Number(n) => match n.as_u64() {
            Some(u) => Json::Uint(u),
            None => Json::Number(n.to_string()),
        },
        serde_json::Value::String(s) => Json::Str(s),
        serde_json::Value::Array(a) => Json::Arr(a.into_iter().map(from_value).collect()),
        serde_json::Value::Object(o) => {
            Json::Obj(o.into_iter().map(|(k, v)| (k, from_value(v))).collect())
        }
    }
}

#[test]
fn unified_marks_only_what_changed() {
    let d = unified("a\nb\nc\n", "a\nB\nc\n");
    let ops: Vec<_> = d.iter().map(|l| l.op).collect();
    assert_eq!(ops, vec![Op::Ctx, Op::Del, Op::Add, Op::Ctx]);
    assert_eq!(d[1].text, "b");
    assert_eq!(d[2].text, "B");
}

#[test]
fn a_new_file_is_all_additions() {
    let d = unified("", "x\ny\n");
    assert!(d.iter().all(|l| l.op == Op::Add));
    assert_eq!(d.len(), 2);
}

#[test]
fn long_diffs_are_capped_with_a_trailer() {
    let old: String = (0..500).map(|i| format!("{i}\n")).collect();
    let new: String = (0..500).map(|i| format!("x{i}\n")).collect();
    let d = unified(&old, &new);
    assert!(d.len() <= MAX_DIFF_LINES + 1, "{} rows", d.len());
    assert_eq!(d.last().unwrap().op, Op::Trailer);
    assert!(d.last().unwrap().text.contains("more"));
}

#[test]
fn far_context_is_trimmed_but_near_context_is_kept() {
    let old: String = (0..30).map(|i| format!("line{i}\n")).collect();
    let new = old.replace("line15", "CHANGED");
    let d = unified(&old, &new);
    let texts: Vec<&str> = d.iter().map(|l| l.text.as_str()).collect();
    assert!(texts.contains(&"line12"), "3 lines of context: {texts:?}");
    assert!(!texts.contains(&"line11"), "further context is cut");
    assert!(texts.contains(&"line18"));
    assert!(!texts.contains(&"line19"));
}

#[test]
fn an_unchanged_file_yields_no_rows() {
    assert!(unified("a\nb\n", "a\nb\n").is_empty());
}

#[test]
fn for_tool_handles_edit_write_and_ignores_the_rest() {
    let edit = for_tool(
        "edit",
        &json(r#"{"path": "x.rs", "old_string": "a\n", "new_string": "b\n"}"#),
        "",
    );
    assert!(edit.is_some());
    assert!(for_tool("bash", &json(r#"{"command": "ls"}"#), "").is_none());
    assert!(for_tool("read", &json(r#"{"path": "x"}"#), "").is_none());
}

#[test]
fn write_diffs_against_the_file_on_disk() {
    let input = json(r#"{"path": "/tmp/f.txt", "content": "new\n"}"#);
    assert_eq!(written_path("write", &input), Some("/tmp/f.txt".to_string()));
    let d = for_tool("write", &input, "old\n").expect("write produces a diff");
    assert_eq!(d[0], DiffLine::new(Op::Del, "old"));
    assert_eq!(d[1], DiffLine::new(Op::Add, "new"));
}

#[test]
fn a_huge_file_falls_back_to_a_whole_file_replace() {
    let old: String = (0..LCS_MAX_LINES + 1).map(|i| format!("{i}\n")).collect();
    let d = unified(&old, "one line\n");
    assert!(!d.is_empty());
    assert_eq!(d.last().unwrap().op, Op::Trailer);
}

#[test]
fn the_wire_shape_is_op_and_text() {
    let j = DiffLine::new(Op::Add, "x").to_json();
    assert_eq!(j.text_field("op"), Some("add"));
    assert_eq!(j.text_field("text"), Some("x"));
}

#[test]
fn a_script_reads_back_as_both_sides() {
    let a: Vec<String> = ["p", "q", "r", "s"].iter().map(|s| s.to_string()).collect();
    let b: Vec<String> = ["q", "x", "s", "t"].iter().map(|s| s.to_string()).collect();
    let s = script(&a, &b);
    let old: Vec<String> =
        s.iter().filter(|l| l.op != Op::Add).map(|l| l.text.clone()).collect();
    let new: Vec<String> =
        s.iter().filter(|l| l.op != Op::Del).map(|l| l.text.clone()).collect();
    assert_eq!(old, a);
    assert_eq!(new, b);
    // The longest run in common is q, s.
    assert_eq!(s.iter().filter(|l| l.op == Op::Ctx).count(), 2);
}

#[test]
fn trimming_keeps_exactly_the_near_context() {
    let mut rows: Vec<DiffLine> = Vec::new();
    for i in 0..10 {
        rows.push(DiffLine::new(Op::Ctx, &format!("c{i}")));
    }
    rows.push(DiffLine::new(Op::Add, "new"));
    let kept = trim_context(rows);
    assert_eq!(kept.len(), CONTEXT_LINES + 1);
    assert_eq!(kept[0], DiffLine::new(Op::Ctx, "c7"));
    assert_eq!(kept[3], DiffLine::new(Op::Add, "new"));
}

#[test]
fn a_capped_diff_counts_what_it_hides() {
    let rows: Vec<DiffLine> =
        (0..MAX_DIFF_LINES + 5).map(|i| DiffLine::new(Op::Add, &format!("{i}"))).collect();
    let d = cap(rows);
    assert_eq!(d.len(), MAX_DIFF_LINES + 1);
    assert!(d[MAX_DIFF_LINES].text.contains("5"), "{}", d[MAX_DIFF_LINES].text);
    assert_eq!(cap(vec![DiffLine::new(Op::Del, "x")]), vec![DiffLine::new(Op::Del, "x")]);
}

#[test]
fn missing_inputs_read_as_empty() {
    assert_eq!(Op::Trailer.as_str(), "trailer");
    assert_eq!(written_path("edit", &json(r#"{"path": "x"}"#)), None);
    assert_eq!(
        for_tool("edit", &json(r#"{"path": "x", "new_string": "b"}"#), ""),
        Some(vec![DiffLine::new(Op::Add, "b")])
    );
    assert_eq!(
        for_tool("write", &json(r#"{"path": "x"}"#), "old"),
        Some(vec![DiffLine::new(Op::Del, "old")])
    );
    assert_eq!(for_tool("write", &json(r#"{"content": "x"}"#), ""), None);
}
