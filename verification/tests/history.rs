//! The prompt history and the key helper.
use hotl::config::HistoryCfg;
use hotl::history::{bound, read_entries, rewrite_text, History};
use hotl::keysource::{excerpt, HelperKey, HelperRun, HELPER_STDOUT_CAP, HELPER_TIMEOUT};

fn cfg(max_entries: usize, max_bytes: u64) -> HistoryCfg {
    HistoryCfg {
        enabled: None,
        path: None,
        max_entries: Some(max_entries),
        max_bytes: Some(max_bytes),
    }
}

/// One session on a history file that is held in memory: it loads, rewrites
/// the file where it must, appends, and leaves the file behind.
fn session(cfg: &HistoryCfg, file: &mut Option<String>, prompts: &[&str]) -> Vec<String> {
    let (mut h, loaded, rewrite) = History::load(cfg, "/data", None, file.as_deref());
    if let Some(text) = rewrite {
        *file = Some(text);
    }
    for p in prompts {
        if let Some(line) = h.append(p) {
            let mut text = file.take().unwrap_or_default();
            text.push_str(&line);
            *file = Some(text);
            h.appended(p);
        }
    }
    loaded
}

fn seed(entries: &[&str]) -> Option<String> {
    let all: Vec<String> = entries.iter().map(|s| s.to_string()).collect();
    Some(rewrite_text(&all))
}

#[test]
fn jsonl_round_trips_including_multiline_prompts() {
    let mut file = None;
    let loaded = session(
        &cfg(100, 1 << 20),
        &mut file,
        &["write a test for foo", "line one\nline two"],
    );
    assert!(loaded.is_empty());
    // Reload from disk: order preserved, embedded newline intact.
    let reloaded = session(&cfg(100, 1 << 20), &mut file, &[]);
    assert_eq!(reloaded, vec!["write a test for foo", "line one\nline two"]);
}

#[test]
fn disabled_reads_and_writes_nothing() {
    let mut file = seed(&["old one", "old two"]);
    let before = file.clone();
    let disabled = HistoryCfg {
        enabled: Some(false),
        path: Some("/data/history.jsonl".to_string()),
        max_entries: None,
        max_bytes: None,
    };
    let loaded = session(&disabled, &mut file, &["should not be written"]);
    assert!(loaded.is_empty(), "disabled load reads nothing");
    // The pre-existing file is untouched (no read, no rewrite, no append).
    assert_eq!(file, before);
    let raw = file.unwrap();
    assert!(!raw.contains("should not be written"));
    assert!(raw.contains("old two"));
}

#[test]
fn startup_trims_to_max_entries_and_rewrites() {
    let mut file = seed(&["a", "b", "c", "d", "e"]);
    let loaded = session(&cfg(3, 1 << 20), &mut file, &[]);
    assert_eq!(loaded, vec!["c", "d", "e"], "newest 3 kept");
    // The on-disk file is rewritten to match (self-bounding).
    let raw = file.unwrap();
    assert_eq!(raw.lines().count(), 3);
    assert!(!raw.contains("\"a\"") && raw.contains("\"e\""));
}

#[test]
fn startup_trims_to_max_bytes_independently() {
    // Each line serializes to `"xxxx"\n` = 7 bytes. A 16-byte cap fits two.
    let mut file = seed(&["xxxx", "yyyy", "zzzz"]);
    let loaded = session(&cfg(1000, 16), &mut file, &[]);
    assert_eq!(loaded, vec!["yyyy", "zzzz"], "entry count high, bytes bind");
    assert_eq!(file.unwrap().lines().count(), 2);
}

#[test]
fn newest_entry_survives_even_if_it_alone_exceeds_the_byte_cap() {
    let mut file = seed(&["small", "a very long final entry that exceeds the cap"]);
    let loaded = session(&cfg(1000, 4), &mut file, &[]);
    assert_eq!(loaded, vec!["a very long final entry that exceeds the cap"]);
}

#[test]
fn append_suppresses_consecutive_duplicates() {
    let mut file = None;
    session(&cfg(100, 1 << 20), &mut file, &["same", "same", "other", "same"]);
    let reloaded = session(&cfg(100, 1 << 20), &mut file, &[]);
    assert_eq!(reloaded, vec!["same", "other", "same"]);
}

#[test]
fn no_rewrite_when_nothing_is_dropped() {
    let mut file = seed(&["a", "b"]);
    let before = file.clone();
    let loaded = session(&cfg(100, 1 << 20), &mut file, &[]);
    assert_eq!(loaded, vec!["a", "b"]);
    // Within caps → file left byte-for-byte alone.
    assert_eq!(file, before);
}

#[test]
fn malformed_lines_are_skipped_and_cleaned_up() {
    let mut file = Some("\"good\"\nnot json\n\"also good\"\n".to_string());
    let loaded = session(&cfg(100, 1 << 20), &mut file, &[]);
    assert_eq!(loaded, vec!["good", "also good"]);
    // The junk line is dropped from disk on the compacting rewrite.
    assert_eq!(file.unwrap().lines().count(), 2);
}

#[test]
fn entries_are_quoted_one_to_a_line() {
    assert_eq!(rewrite_text(&["a\"b".to_string(), "c".to_string()]), "\"a\\\"b\"\n\"c\"\n");
    let (entries, filled) = read_entries("\"a\"\n\n  \n17\n\"b\\n\"\n");
    assert_eq!(entries, vec!["a", "b\n"]);
    assert_eq!(filled, 3);
}

#[test]
fn bounding_twice_is_bounding_once() {
    let all: Vec<String> = (0..9).map(|i| format!("entry {i}")).collect();
    let once = bound(&all, 4, 25);
    assert_eq!(bound(&once, 4, 25), once);
    assert_eq!(once, vec!["entry 7", "entry 8"]);
    assert!(bound(&all, 0, 25).is_empty());
}

fn exited(success: bool, stdout: &[u8], stderr: &[u8]) -> HelperRun {
    HelperRun::Exited {
        status: "exit status: 3".to_string(),
        success,
        stdout: stdout.to_vec(),
        stderr: stderr.to_vec(),
    }
}

#[test]
fn stdout_is_trimmed_and_cached() {
    let mut h = HelperKey::new("helper".to_string(), None);
    assert_eq!(h.cached_fresh(0), None);
    assert_eq!(h.settle(&exited(true, b"  key-1 \n", b""), 0), Ok("key-1".to_string()));
    assert_eq!(h.cached_fresh(1_000_000_000_000), Some("key-1".to_string()));
}

#[test]
fn ttl_lapse_reruns_helper() {
    // ttl 0 = always stale
    let mut h = HelperKey::new("helper".to_string(), Some(0));
    assert_eq!(h.settle(&exited(true, b"key-1", b""), 5), Ok("key-1".to_string()));
    assert_eq!(h.cached_fresh(5), None);
    let mut h = HelperKey::new("helper".to_string(), Some(10));
    assert_eq!(h.settle(&exited(true, b"key-1", b""), 5), Ok("key-1".to_string()));
    assert_eq!(h.cached_fresh(14), Some("key-1".to_string()));
    assert_eq!(h.cached_fresh(15), None);
}

#[test]
fn refresh_reruns_helper() {
    let mut h = HelperKey::new("helper".to_string(), None);
    assert_eq!(h.settle(&exited(true, b"key-1", b""), 0), Ok("key-1".to_string()));
    assert_eq!(h.settle(&exited(true, b"key-2", b""), 1), Ok("key-2".to_string()));
    assert_eq!(h.cached_fresh(2), Some("key-2".to_string()));
    // A refresh that fails keeps the key that is cached.
    assert!(h.settle(&exited(false, b"", b""), 3).is_err());
    assert_eq!(h.cached_fresh(4), Some("key-2".to_string()));
}

#[test]
fn nonzero_exit_is_error_with_stderr_excerpt() {
    let h = HelperKey::new("helper".to_string(), None);
    let e = h.judge(&exited(false, b"", b"broken-vault\xff\n")).unwrap_err();
    assert!(e.contains("exit"), "{e}");
    assert!(e.contains("broken-vault\u{fffd}"), "{e}");
}

#[test]
fn empty_stdout_is_error() {
    let h = HelperKey::new("true".to_string(), None);
    let e = h.judge(&exited(true, b" \n", b"")).unwrap_err();
    assert!(e.contains("printed nothing"), "{e}");
}

#[test]
fn oversized_stdout_is_error() {
    let h = HelperKey::new("helper".to_string(), None);
    let e = h.judge(&exited(true, &vec![b'a'; 70_000], b"")).unwrap_err();
    assert!(e.contains("more than"), "{e}");
    assert!(h.judge(&exited(true, &vec![b'a'; HELPER_STDOUT_CAP], b"")).is_ok());
}

#[test]
fn timeout_kills_helper() {
    let h = HelperKey::new("sleep 30".to_string(), None).with_timeout(100_000_000);
    assert_eq!(h.timeout, 100_000_000);
    assert_eq!(HelperKey::new("x".to_string(), None).timeout, HELPER_TIMEOUT);
    let e = h.judge(&HelperRun::TimedOut).unwrap_err();
    assert!(e.contains("timed out"), "{e}");
    let e = h.judge(&HelperRun::FailedToStart("no shell".to_string())).unwrap_err();
    assert!(e.contains("no shell"), "{e}");
}

#[test]
fn an_excerpt_ends_where_it_is_cut() {
    assert_eq!(excerpt("short", 10), "short");
    let cut = excerpt("abcdefghij", 4);
    assert!(cut.starts_with("abcd"), "{cut}");
    assert!(!cut.contains('e'), "{cut}");
}

#[test]
fn a_history_starts_with_what_fits() {
    let read: Vec<String> = ["one", "two", "three"].iter().map(|s| s.to_string()).collect();
    // Nothing is dropped: the file stays as it is.
    let (h, entries, stale) = History::start(&cfg(3, 1 << 20), "/d/h.jsonl".to_string(), &read, 3);
    assert_eq!(entries, read);
    assert_eq!(h.last.as_deref(), Some("three"));
    assert_eq!(h.path.as_deref(), Some("/d/h.jsonl"));
    assert!(!stale);
    // The cap keeps the newest, and the file is to be replaced.
    let (h, entries, stale) = History::start(&cfg(2, 1 << 20), "/d/h.jsonl".to_string(), &read, 3);
    assert_eq!(entries, vec!["two", "three"]);
    assert_eq!(h.last.as_deref(), Some("three"));
    assert!(stale);
    // A line that held no entry makes the file stale too.
    let (_, entries, stale) = History::start(&cfg(3, 1 << 20), "/d/h.jsonl".to_string(), &read, 4);
    assert_eq!(entries.len(), 3);
    assert!(stale);
    let (h, entries, stale) = History::start(&cfg(3, 1 << 20), "/d/h.jsonl".to_string(), &[], 0);
    assert!(h.last.is_none() && entries.is_empty() && !stale);
}

#[test]
fn a_helper_is_judged_by_its_texts() {
    let helper = HelperKey {
        command: "give-key".to_string(),
        ttl: None,
        timeout: HELPER_TIMEOUT,
        cache: None,
    };
    assert_eq!(
        helper.judge_texts("exit status: 0", true, 6, " k-1 \n", "noise"),
        Ok("k-1".to_string())
    );
    assert_eq!(
        helper.judge_texts("exit status: 3", false, 4, "k-1\n", " locked \n"),
        Err("api_key_helper `give-key` exited with exit status: 3: locked".to_string())
    );
    assert_eq!(
        helper.judge_texts("exit status: 0", true, HELPER_STDOUT_CAP + 1, "k-1", ""),
        Err("api_key_helper `give-key` printed more than 65536 bytes — that is not a key"
            .to_string())
    );
    assert_eq!(
        helper.judge_texts("exit status: 0", true, 3, " \n ", ""),
        Err("api_key_helper `give-key` printed nothing on stdout — it must print the API key"
            .to_string())
    );
}
