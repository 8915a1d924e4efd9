//! The diagnosis and what each check says.
use hotl::config::{NetworkCfg, PermissionMode, ProviderCfg, ResolvedPermissions};
use hotl::doctor::{
    audit_check, config_check, containment_section, egress_checks, gateway_check,
    in_report_order, key_helper_check, key_helper_plan, mcp_check, memory_check, models_url,
    permissions_check, probe_line, provider_check, report, rules_check, sandbox_check,
    sessions_check, source_kind, undo_check, Check, Findings, KeyHelper, KeyRun, RuleFile,
    SandboxReport, SandboxStatus, SessionProbe, Status, UndoState,
};
use hotl::launch::AdminFile;
use hotl::mcp_cli::TrustState;
use hotl::plugins::ServerConfig;
use hotl::provider::{select_provider, AuthMode, Defaults};
use hotl::sandbox::ReadDeny;
use hotl::vars::Env;

fn lines(checks: &[Check]) -> String {
    checks
        .iter()
        .map(|c| {
            let tag = match c.status {
                Status::Pass => "ok",
                Status::Warn => "warn",
                Status::Fail => "FAIL",
            };
            format!("{tag} {}\n", c.line)
        })
        .collect()
}

fn server(name: &str, command: &str) -> ServerConfig {
    ServerConfig {
        name: name.to_string(),
        command: command.to_string(),
        args: Vec::new(),
        description: String::new(),
        env: Vec::new(),
        cwd: None,
    }
}

fn v(a: &[&str]) -> Vec<String> {
    a.iter().map(|s| s.to_string()).collect()
}

#[test]
fn mcp_check_counts_states_and_flags_unreadable_binaries() {
    assert!(lines(&mcp_check(&[], &[], &[], &[])).contains("ok mcp: no servers configured"));

    let servers = [server("docs", "/bin/docs"), server("broken", "/definitely/not/here")];
    let out = lines(&mcp_check(
        &servers,
        &[TrustState::Untrusted, TrustState::Unhashable],
        &[],
        &[],
    ));
    assert!(out.contains("2 server(s) configured"), "{out}");
    assert!(out.contains("0 trusted, 1 screen on first use"), "{out}");
    assert!(out.contains("warn mcp: `broken`'s binary cannot be read"), "{out}");
}

#[test]
fn mcp_check_surfaces_a_corrupt_trust_file_and_stale_grants() {
    let out = lines(&mcp_check(&[], &[], &v(&["trust.toml: expected `]`"]), &[]));
    assert!(out.contains("warn mcp:") && out.contains("trust.toml"), "{out}");

    let out = lines(&mcp_check(&[], &[], &[], &v(&["ghost"])));
    assert!(out.contains("hotl mcp untrust ghost"), "{out}");
}

#[test]
fn key_source_line_names_active_source() {
    assert_eq!(source_kind(AuthMode::ApiKey, true), "helper");
    assert_eq!(source_kind(AuthMode::ApiKey, false), "static env key");
}

#[test]
fn subscription_source_line_says_no_credential_is_held() {
    let line = source_kind(AuthMode::Subscription, false);
    assert!(line.contains("subscription"), "{line}");
    assert!(!line.contains("key"), "{line}");
}

#[test]
fn gateway_probe_line_formats() {
    assert_eq!(
        probe_line("http://localhost:8080/v1", Ok(200), AuthMode::ApiKey),
        "gateway: http://localhost:8080/v1/models reachable (HTTP 200, key accepted)"
    );
    assert_eq!(
        probe_line("http://localhost:8080/v1", Ok(401), AuthMode::ApiKey),
        "gateway: http://localhost:8080/v1/models reachable but rejected the key (HTTP 401) — check the key source"
    );
    assert!(probe_line("http://x/v1", Err("connection refused".into()), AuthMode::ApiKey)
        .contains("connection refused"));
}

#[test]
fn probe_normalizes_a_bare_origin_base() {
    assert_eq!(
        probe_line("http://127.0.0.1:3456", Ok(200), AuthMode::Subscription),
        "gateway: http://127.0.0.1:3456/v1/models reachable (HTTP 200)"
    );
    assert_eq!(models_url("http://h/v1//"), "http://h/v1/models");
    assert_eq!(models_url("http://h"), models_url("http://h/v1"));
}

#[test]
fn subscription_probe_401_does_not_blame_the_key_source() {
    let line = probe_line("http://127.0.0.1:3456/v1", Ok(401), AuthMode::Subscription);
    assert!(!line.contains("key source"), "{line}");
    assert!(line.contains("endpoint"), "{line}");
}

#[test]
fn subscription_probe_200_does_not_claim_a_key_was_accepted() {
    let line = probe_line("http://127.0.0.1:3456/v1", Ok(200), AuthMode::Subscription);
    assert!(!line.contains("key accepted"), "{line}");
    assert!(line.contains("reachable"), "{line}");
}

fn check(status: Status, line: &str) -> Check {
    Check { status, line: line.to_string() }
}

#[test]
fn a_failed_check_fails_the_report() {
    let (text, code) = report("1.2.3", &[check(Status::Pass, "a"), check(Status::Warn, "b")]);
    assert_eq!(code, 0);
    assert!(text.contains("1.2.3") && text.contains("a") && text.contains("b"), "{text}");
    let (_, code) = report("1.2.3", &[check(Status::Fail, "c"), check(Status::Pass, "a")]);
    assert_eq!(code, 1);
}

fn env(pairs: &[(&str, &str)]) -> Env {
    Env { vars: pairs.iter().map(|(a, b)| (a.to_string(), b.to_string())).collect() }
}

#[test]
fn the_provider_is_named_with_its_source() {
    let defaults = Defaults {
        model: "anthropic/m".to_string(),
        openai_base_url: "https://api.openai.com/v1".to_string(),
    };
    let mut cfg = ProviderCfg::default();
    let found = select_provider(&cfg, &env(&[("ANTHROPIC_API_KEY", "k")]), &defaults);
    let c = provider_check(&found, AuthMode::ApiKey);
    assert_eq!(c.status, Status::Pass);
    assert!(c.line.contains("static env key"), "{}", c.line);
    let c = provider_check(&select_provider(&cfg, &env(&[]), &defaults), AuthMode::ApiKey);
    assert_eq!(c.status, Status::Fail);

    let plan = key_helper_plan(&cfg, &env(&[]), &Ok(AuthMode::ApiKey), true);
    assert!(matches!(plan, KeyHelper::Settled(_)));
    cfg.api_key_helper = Some("mint".to_string());
    assert_eq!(key_helper_plan(&cfg, &env(&[]), &Ok(AuthMode::ApiKey), true), KeyHelper::Run);
    assert_eq!(key_helper_check(&KeyRun::Key { seconds: "0.1".to_string() }).status, Status::Pass);
    assert_eq!(key_helper_check(&KeyRun::Failed("boom".to_string())).status, Status::Fail);
    assert_ne!(key_helper_check(&KeyRun::NoKey).status, Status::Pass);
}

#[test]
fn a_gateway_is_probed_where_there_is_one() {
    let c = gateway_check(Some(("http://h", Ok(200))), AuthMode::ApiKey);
    assert_eq!(c.status, Status::Pass);
    assert!(c.line.contains("http://h/v1/models"), "{}", c.line);
    assert_ne!(gateway_check(Some(("http://h", Ok(401))), AuthMode::ApiKey).status, Status::Pass);
    assert_eq!(gateway_check(None, AuthMode::ApiKey).status, Status::Pass);
}

fn deny() -> ReadDeny {
    ReadDeny {
        always: v(&["/c/hotl", "/d/hotl"]),
        secrets: v(&["/home/u/.ssh"]),
        rules: v(&["/vault"]),
    }
}

#[test]
fn the_containment_names_every_tier() {
    let text = containment_section(&deny(), &env(&[("/vault", "[[deny]] read /vault")]), &[]);
    for needle in ["/c/hotl", "/home/u/.ssh", "/vault"] {
        assert!(text.contains(needle), "{needle}: {text}");
    }
}

fn sandbox(status: SandboxStatus) -> SandboxReport {
    SandboxReport {
        warnings: v(&["[sandbox] writable `/etc`"]),
        writable: v(&["/cache"]),
        read_deny: deny(),
        rules: env(&[]),
        unreached: Vec::new(),
        shell: Ok(("bash".to_string(), "/bin/bash".to_string())),
        status,
        carve: Some(true),
        carve_failures: Vec::new(),
    }
}

#[test]
fn the_sandbox_says_what_it_enforces() {
    let out = lines(&sandbox_check(&sandbox(SandboxStatus::Enforced("landlock".to_string()))));
    assert!(out.contains("landlock") && out.contains("writable `/etc`"), "{out}");
    assert!(out.contains("/cache"), "{out}");
    let out = lines(&sandbox_check(&sandbox(SandboxStatus::Disabled)));
    assert!(out.contains("warn"), "{out}");
    let out =
        lines(&sandbox_check(&sandbox(SandboxStatus::Unavailable("no kernel".to_string()))));
    assert!(out.contains("no kernel"), "{out}");
}

#[test]
fn the_egress_policy_is_reported() {
    let mut cfg = NetworkCfg::default();
    let out = lines(&egress_checks(&cfg, &[], &[]));
    assert!(out.contains("open"), "{out}");
    cfg.egress = Some("opne".to_string());
    let out = lines(&egress_checks(&cfg, &[], &[]));
    assert!(out.contains("FAIL") && out.contains("opne"), "{out}");
    cfg.egress = Some("allowlist".to_string());
    cfg.allow = v(&["a.example"]);
    let out = lines(&egress_checks(&cfg, &[], &v(&["a.example"])));
    assert!(out.contains("1"), "{out}");
}

#[test]
fn files_and_rules_are_reported() {
    assert!(config_check("/c/hotl", true).line.contains("/c/hotl"));
    assert_eq!(config_check("/c/hotl", true).status, Status::Pass);
    let resolved = ResolvedPermissions {
        mode: PermissionMode::Bypass,
        plan: false,
        warning: Some("unknown mode".to_string()),
    };
    let c = permissions_check(&resolved, false, "/etc/hotl/preapproved.toml", &AdminFile::Absent);
    assert_ne!(c.status, Status::Pass);
    let out = lines(&rules_check(&RuleFile::Unreadable("bad".to_string()), &[]));
    assert!(out.contains("bad"), "{out}");
    assert!(lines(&rules_check(&RuleFile::Loaded, &v(&["w"]))).contains("w"));
    assert_eq!(sessions_check("/s", &SessionProbe::Writable).status, Status::Pass);
    assert_eq!(
        sessions_check("/s", &SessionProbe::ReadOnly("denied".to_string())).status,
        Status::Fail
    );
    assert_eq!(
        sessions_check("/s", &SessionProbe::NoDir("denied".to_string())).status,
        Status::Fail
    );
    assert!(memory_check("/c/hotl", true).line.contains("memory"));
    assert_eq!(audit_check(&[]).status, Status::Pass);
    assert_ne!(audit_check(&v(&["x.jsonl"])).status, Status::Pass);
}

#[test]
fn the_undo_state_is_reported() {
    let ready = undo_check(&UndoState::Ready { label: "l1".to_string(), session: "s1".to_string() });
    assert_eq!(ready.status, Status::Pass);
    assert!(ready.line.contains("l1"), "{}", ready.line);
    assert_ne!(undo_check(&UndoState::NoGit).status, Status::Pass);
}

#[test]
fn findings_come_in_the_order_of_the_report() {
    let one = |l: &str| check(Status::Pass, l);
    let all = in_report_order(Findings {
        provider: one("provider"),
        sandbox: vec![one("sandbox")],
        egress: vec![one("egress")],
        config: one("config"),
        permissions: one("permissions"),
        rules: vec![one("rules")],
        sessions: one("sessions"),
        mcp: vec![one("mcp")],
        memory: one("memory"),
        audit: one("audit"),
        undo: one("undo"),
        key_helper: one("key helper"),
        gateway: one("gateway"),
    });
    assert_eq!(all.len(), 13);
    assert_eq!(all[0].line, "provider");
}
