//! The write floor and the read-deny.
use hotl::paths::{
    components, expand_home, is_absolute, join, overlaps, same_path, starts_with,
};
use hotl::sandbox::{
    readable_precheck, risky_root, risky_roots, writable_precheck, DirProbe, FileToolsMode,
    OwnDirs, ProjectedRule, ReadDeny, ReadProbe, SandboxCfg,
};

const CONFIG: &str = "/scratch/config-hotl";
const DATA: &str = "/scratch/data-hotl";

fn own() -> OwnDirs {
    OwnDirs {
        config: CONFIG.to_string(),
        data: DATA.to_string(),
        config_real: CONFIG.to_string(),
        data_real: DATA.to_string(),
    }
}

fn v(a: &[&str]) -> Vec<String> {
    a.iter().map(|s| s.to_string()).collect()
}

fn cfg(writable: &[&str], readable: &[&str], file_tools: Option<&str>) -> SandboxCfg {
    SandboxCfg {
        writable: v(writable),
        readable: v(readable),
        file_tools: file_tools.map(|s| s.to_string()),
    }
}

/// A made-up file system: `links` lead elsewhere, `files` are no directories,
/// and every directory can be created.
fn resolve(
    cfg: &SandboxCfg,
    links: &[(&str, &str)],
    files: &[&str],
) -> (Vec<String>, FileToolsMode, Vec<String>) {
    let probes: Vec<Option<DirProbe>> = cfg
        .writable
        .iter()
        .map(|e| {
            writable_precheck(e, &own(), None).ok().map(|path| {
                let path = path.trim_end_matches('/').to_string();
                let real = links
                    .iter()
                    .find(|(from, _)| starts_with(&path, from))
                    .map(|(from, to)| path.replacen(from, to, 1))
                    .unwrap_or(path);
                let is_dir = !files.contains(&real.as_str());
                DirProbe::Resolved(real, is_dir)
            })
        })
        .collect();
    cfg.resolve_with_home(&own(), None, &probes, &risky_roots())
}

fn credentials(home: &str) -> Vec<String> {
    [".ssh", ".aws", ".config/gcloud", ".azure", ".npmrc", ".pypirc", ".netrc", ".dockercfg"]
        .iter()
        .map(|n| format!("{home}/{n}"))
        .collect()
}

fn read_deny(
    cfg: &SandboxCfg,
    present: &[&str],
    granted: &[&str],
    rules: &[ProjectedRule],
) -> (ReadDeny, Vec<String>) {
    let home = "/scratch2/home";
    let probes: Vec<Option<ReadProbe>> = cfg
        .readable
        .iter()
        .map(|e| {
            readable_precheck(e, &own(), Some(home)).ok().map(|path| {
                if present.contains(&path.as_str()) {
                    ReadProbe::Resolved(path)
                } else {
                    ReadProbe::Missing
                }
            })
        })
        .collect();
    cfg.resolve_read_deny(
        &own(),
        Some(home),
        &probes,
        &risky_roots(),
        &v(granted),
        &credentials(home),
        rules,
    )
}

#[test]
fn sandbox_section_parses_and_empty_resolves_to_nothing() {
    let c = cfg(&["/x"], &[], Some("writable"));
    assert_eq!(c.writable, vec!["/x".to_string()]);
    assert_eq!(c.file_tools.as_deref(), Some("writable"));

    // Absent section: exactly nothing — the floor is byte-identical to
    // an unconfigured hotl, and no warning rides every startup.
    let (writable, file_tools, warnings) = resolve(&SandboxCfg::default(), &[], &[]);
    assert!(writable.is_empty());
    assert_eq!(file_tools, FileToolsMode::Workspace);
    assert!(warnings.is_empty(), "{warnings:?}");
}

#[test]
fn sandbox_writable_creates_missing_dirs_and_canonicalizes() {
    let c = cfg(&["/scratch2/bazel-cache/disk/", "/scratch2/link/inner"], &[], None);
    let (writable, _, warnings) =
        resolve(&c, &[("/scratch2/link", "/scratch2/real")], &[]);
    assert!(warnings.is_empty(), "{warnings:?}");
    // The symlink is resolved: the grant lands on the target, so the
    // kernel and the tool boundary agree on one canonical name.
    assert_eq!(writable, v(&["/scratch2/bazel-cache/disk", "/scratch2/real/inner"]));
}

#[test]
fn sandbox_writable_refuses_config_and_data_dirs() {
    let c = cfg(
        &[
            CONFIG,                     // is the config dir
            "/scratch/config-hotl/sub", // inside it
            "/scratch",                 // contains it
            DATA,                       // the data dir
            "/scratch2/innocent",       // symlink-smuggled
            "/scratch2/cache",          // the survivor
        ],
        &[],
        None,
    );
    let (writable, _, warnings) = resolve(&c, &[("/scratch2/innocent", CONFIG)], &[]);
    // Refusal wins, entry by entry — the good sibling still lands.
    assert_eq!(writable, v(&["/scratch2/cache"]));
    assert_eq!(warnings.len(), 5, "{warnings:?}");
    for w in &warnings {
        assert!(w.contains("refused"), "{w}");
    }
    // Nothing is created inside the config dir on the way.
    assert!(writable_precheck("/scratch/config-hotl/sub", &own(), None).is_err());
}

#[test]
fn sandbox_writable_warns_but_honors_risky_roots() {
    let (writable, _, warnings) = resolve(&cfg(&["/etc"], &[], None), &[], &[]);
    assert_eq!(writable, v(&["/etc"]));
    assert_eq!(warnings.len(), 1);
    assert!(warnings[0].contains("/etc"), "{}", warnings[0]);
    assert!(!warnings[0].contains("refused"), "{}", warnings[0]);
    assert_eq!(risky_root("/etc/ssl", &risky_roots()).as_deref(), Some("/etc"));
    assert_eq!(risky_root("/scratch2", &risky_roots()), None);
}

#[test]
fn sandbox_writable_skips_files_and_relative_entries() {
    let c = cfg(&["/scratch2/not-a-dir", "relative/cache", "~"], &[], None);
    let (writable, _, warnings) = resolve(&c, &[], &["/scratch2/not-a-dir"]);
    assert!(writable.is_empty());
    assert_eq!(warnings.len(), 3, "{warnings:?}");
    assert!(warnings[0].contains("not a directory"), "{}", warnings[0]);
    assert!(warnings[1].contains("absolute"), "{}", warnings[1]);
    assert!(warnings[2].contains("absolute"), "{}", warnings[2]);
}

#[test]
fn an_entry_that_fails_is_skipped_with_the_reason() {
    let c = cfg(&["/scratch2/a", "/scratch2/b"], &[], None);
    let (writable, _, warnings) = c.resolve_with_home(
        &own(),
        None,
        &[
            Some(DirProbe::CreateFailed("read-only".to_string())),
            Some(DirProbe::Unresolved("loop".to_string())),
        ],
        &risky_roots(),
    );
    assert!(writable.is_empty());
    assert!(warnings[0].contains("read-only") && warnings[1].contains("loop"), "{warnings:?}");
}

#[test]
fn sandbox_file_tools_parses_and_unknown_fails_closed() {
    let with_mode = |mode: Option<&str>, writable: &[&str]| {
        let (_, file_tools, w) = resolve(&cfg(writable, &[], mode), &[], &[]);
        (file_tools, w)
    };
    let entry = ["/scratch2/cache"];

    let (mode, w) = with_mode(Some("workspace"), &entry);
    assert_eq!(mode, FileToolsMode::Workspace);
    assert!(w.is_empty(), "{w:?}");

    let (mode, w) = with_mode(Some("writable"), &entry);
    assert_eq!(mode, FileToolsMode::Writable);
    assert!(w.is_empty(), "{w:?}");

    // Unknown mode fails closed to workspace, naming the accepted values.
    let (mode, w) = with_mode(Some("writeable"), &entry);
    assert_eq!(mode, FileToolsMode::Workspace);
    assert_eq!(w.len(), 1);
    assert!(w[0].contains("writeable") && w[0].contains("workspace | writable"), "{}", w[0]);

    // "writable" with nothing writable is a no-op worth saying out loud.
    let (mode, w) = with_mode(Some("writable"), &[]);
    assert_eq!(mode, FileToolsMode::Writable);
    assert_eq!(w.len(), 1);
    assert!(w[0].contains("no effect"), "{}", w[0]);
}

#[test]
fn read_deny_denies_hotls_own_dirs_and_the_credential_class() {
    let (deny, warnings) = read_deny(&SandboxCfg::default(), &[], &["/dev"], &[]);
    assert!(warnings.is_empty(), "{warnings:?}");
    // Tier A: hotl's own dirs. The run dir lives under the data dir, so
    // denying the data dir is what covers the session token.
    assert_eq!(deny.always, v(&[CONFIG, DATA]));
    // Tier B: every credential entry, whether or not it exists today.
    assert_eq!(deny.secrets, credentials("/scratch2/home"));
}

#[test]
fn readable_entry_touching_hotls_own_dirs_is_refused() {
    let c = cfg(
        &[],
        &[
            CONFIG,                   // is the config dir
            "/scratch/data-hotl/run", // inside the data dir
            "/scratch",               // contains both
            "/scratch/config-hotl/x", // under the config dir
        ],
        None,
    );
    let (deny, warnings) = read_deny(&c, &[], &[], &[]);
    assert_eq!(warnings.len(), 4, "{warnings:?}");
    for w in &warnings {
        assert!(w.contains("refused"), "{w}");
    }
    // Tier A survives every attempt to name it.
    assert_eq!(deny.always.len(), 2);
}

#[test]
fn readable_lifts_only_the_named_subtree() {
    let c = cfg(&[], &["~/.aws"], None);
    let (deny, warnings) = read_deny(&c, &["/scratch2/home/.aws"], &[], &[]);
    assert!(warnings.is_empty(), "{warnings:?}");
    assert!(!deny.secrets.contains(&"/scratch2/home/.aws".to_string()), "{deny:?}");
    assert!(deny.secrets.contains(&"/scratch2/home/.ssh".to_string()), "{deny:?}");
}

#[test]
fn readable_does_not_create_missing_directories() {
    let c = cfg(&[], &["/scratch2/home/.ssh"], None);
    let (_deny, warnings) = read_deny(&c, &[], &[], &[]);
    assert_eq!(warnings.len(), 1, "{warnings:?}");
    assert!(warnings[0].contains("does not exist"), "{}", warnings[0]);
}

#[test]
fn read_deny_drops_an_entry_that_sits_inside_a_write_grant() {
    // Granting write on $HOME puts every credential path inside it.
    let (deny, warnings) = read_deny(&SandboxCfg::default(), &[], &["/scratch2/home"], &[]);
    assert!(deny.secrets.is_empty(), "{:?}", deny.secrets);
    assert!(warnings.iter().any(|w| w.contains("cannot deny reads of")), "{warnings:?}");
    // Tier A is unaffected: it is never inside a writable root (refused).
    assert_eq!(deny.always.len(), 2);
}

fn projected(path: &str) -> ProjectedRule {
    ProjectedRule {
        path: path.to_string(),
        rule: format!("[[deny]] read path_prefix = \"{path}\""),
    }
}

#[test]
fn read_deny_carries_a_projected_rule() {
    let (deny, warnings) = read_deny(&SandboxCfg::default(), &[], &[], &[projected("/vault")]);
    assert_eq!(deny.rules, v(&["/vault"]));
    // Tier C is its own field — never `always`, which drives the file-tool
    // refusal message and the read-probe canary location.
    assert_eq!(deny.always.len(), 2);
    assert!(!deny.always.contains(&deny.rules[0]));
    assert!(warnings.is_empty(), "{warnings:?}");
}

#[test]
fn a_projected_rule_inside_a_write_grant_is_dropped_with_a_warning() {
    let (deny, warnings) =
        read_deny(&SandboxCfg::default(), &[], &["/work"], &[projected("/work/secrets")]);
    assert!(deny.rules.is_empty(), "{:?}", deny.rules);
    assert!(warnings.iter().any(|w| w.contains("cannot deny reads of")), "{warnings:?}");
}

#[test]
fn no_path_deny_rules_leaves_the_carve_untouched() {
    let (base, warnings) = read_deny(&SandboxCfg::default(), &[], &[], &[]);
    assert!(base.rules.is_empty());
    assert!(warnings.is_empty(), "{warnings:?}");
}

#[test]
fn paths_are_taken_component_by_component() {
    assert!(is_absolute("/a") && !is_absolute("a"));
    assert_eq!(components("/a//b/./c/"), components("/a/b/c"));
    assert!(starts_with("/a/b", "/a") && !starts_with("/ab", "/a"));
    assert!(overlaps("/a", "/a/b") && overlaps("/a/b", "/a") && !overlaps("/a/b", "/a/c"));
    assert!(same_path("/a/b/", "/a/b"));
    assert_eq!(join("/a", "b"), "/a/b");
    assert_eq!(join("/a", "/b"), "/b");
    assert_eq!(expand_home("~/x", Some("/h")), "/h/x");
    assert_eq!(expand_home("~", Some("/h")), "~");
    assert_eq!(expand_home("~/x", None), "~/x");
}
