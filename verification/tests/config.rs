//! The configuration and what it resolves to.
use hotl::config::{
    is_git_url, parse_isolation, section_or_file, Config, EgressPolicy, Host, Isolation,
    NetworkCfg, PermissionMode, Settings,
};

fn section<'a>(t: &'a toml::Table, name: &str) -> Option<&'a toml::Table> {
    t.get(name).and_then(|v| v.as_table())
}

fn text(t: Option<&toml::Table>, key: &str) -> Option<String> {
    t.and_then(|t| t.get(key)).and_then(|v| v.as_str()).map(|s| s.to_string())
}

fn flag(t: Option<&toml::Table>, key: &str) -> Option<bool> {
    t.and_then(|t| t.get(key)).and_then(|v| v.as_bool())
}

fn number(t: Option<&toml::Table>, key: &str) -> Option<i64> {
    t.and_then(|t| t.get(key)).and_then(|v| v.as_integer())
}

fn size(t: Option<&toml::Table>, key: &str) -> Option<usize> {
    number(t, key).map(|n| n as usize)
}

fn list(t: Option<&toml::Table>, key: &str) -> Vec<String> {
    t.and_then(|t| t.get(key))
        .and_then(|v| v.as_array())
        .map(|a| a.iter().filter_map(|v| v.as_str()).map(|s| s.to_string()).collect())
        .unwrap_or_default()
}

fn pairs(t: Option<&toml::Table>, key: &str) -> Vec<(String, String)> {
    t.and_then(|t| t.get(key))
        .and_then(|v| v.as_table())
        .map(|m| m.iter().map(|(k, v)| (k.clone(), v.as_str().unwrap().to_string())).collect())
        .unwrap_or_default()
}

/// The configuration that a TOML text gives.
fn cfg_with(src: &str) -> Config {
    let doc = toml::from_str::<toml::Table>(src).unwrap();
    let p = section(&doc, "provider");
    let c = section(&doc, "context");
    let b = section(&doc, "behavior");
    let r = section(&doc, "retention");
    let h = section(&doc, "history");
    let n = section(&doc, "network");
    let m = section(&doc, "permissions");
    let a = section(&doc, "agents");
    let w = section(&doc, "workflows");
    let k = section(&doc, "concurrency");
    let x = section(&doc, "sandbox");
    let mut s = Settings::default();
    s.provider.model = text(p, "model");
    s.provider.base_url = text(p, "base_url");
    s.provider.auth = text(p, "auth");
    s.provider.api_key_helper = text(p, "api_key_helper");
    s.provider.api_key_helper_ttl_secs = number(p, "api_key_helper_ttl_secs").map(|n| n as u64);
    s.provider.cache_breakpoints = flag(p, "cache_breakpoints");
    s.context.window = number(c, "window").map(|n| n as u64);
    s.context.evict_tokens = number(c, "evict_tokens").map(|n| n as u64);
    s.behavior.vim_mode = flag(b, "vim_mode");
    s.behavior.mouse = flag(b, "mouse");
    s.behavior.copy_on_select = flag(b, "copy_on_select");
    s.behavior.max_turns = number(b, "max_turns");
    s.retention.max_age_days = number(r, "max_age_days").map(|n| n as u64);
    s.retention.max_sessions = size(r, "max_sessions");
    s.history.enabled = flag(h, "enabled");
    s.history.max_entries = size(h, "max_entries");
    s.history.max_bytes = number(h, "max_bytes").map(|n| n as u64);
    s.history.path = text(h, "path");
    s.network.egress = text(n, "egress");
    s.network.allow = list(n, "allow");
    s.network.defaults = flag(n, "defaults");
    s.permissions.mode = text(m, "mode");
    s.permissions.plan = flag(m, "plan");
    s.skills.marketplaces = pairs(section(&doc, "skills"), "marketplaces");
    s.plugins.sources = pairs(section(&doc, "plugins"), "sources");
    s.agents.isolation = text(a, "isolation");
    s.workflows.concurrency = size(w, "concurrency");
    s.workflows.max_agents = size(w, "max_agents");
    s.concurrency.agents = size(k, "agents");
    s.concurrency.requests = size(k, "requests");
    s.concurrency.subprocs = size(k, "subprocs");
    s.concurrency.worker_threads = size(k, "worker_threads");
    s.concurrency.blocking_threads = size(k, "blocking_threads");
    s.sandbox.writable = list(x, "writable");
    s.sandbox.readable = list(x, "readable");
    s.sandbox.file_tools = text(x, "file_tools");
    let (cfg, warning) = Config::load(Some(src), Ok(s));
    assert_eq!(warning, None);
    cfg
}

/// A host list as the proxy reads it: lower case, no trailing dot.
fn normal(host: &str) -> String {
    host.trim_end_matches('.').to_ascii_lowercase()
}

fn starter() -> Vec<Host> {
    ["github.com", "crates.io", "static.crates.io", "pypi.org"]
        .iter()
        .map(|h| Host { entry: h.to_string(), normal: normal(h) })
        .collect()
}

fn normals(cfg: &NetworkCfg) -> Vec<String> {
    cfg.allow.iter().map(|h| normal(h)).collect()
}

fn egress(cfg: &Config) -> (EgressPolicy, Option<String>) {
    cfg.network.egress_policy(&starter(), &normals(&cfg.network))
}

fn allow(cfg: &Config) -> Vec<String> {
    cfg.network.effective_allow(&starter(), &normals(&cfg.network))
}

#[test]
fn agents_isolation_parses_fail_closed() {
    assert_eq!(cfg_with("").agents.isolation(), Isolation::Off);
    assert_eq!(
        cfg_with("[agents]\nisolation = \"worktree\"\n").agents.isolation(),
        Isolation::Worktree
    );
    assert_eq!(cfg_with("[agents]\nisolation = \"none\"\n").agents.isolation(), Isolation::Off);
    // A typo must not become the permissive reading.
    assert_eq!(
        cfg_with("[agents]\nisolation = \"worktee\"\n").agents.isolation(),
        Isolation::Off
    );
    assert_eq!(parse_isolation("worktree"), Isolation::Worktree);
}

#[test]
fn workflows_limits_default_and_floor_at_one() {
    assert_eq!(cfg_with("").workflows.limits(), (8, 1000));
    assert_eq!(
        cfg_with("[workflows]\nconcurrency = 2\nmax_agents = 50\n").workflows.limits(),
        (2, 50)
    );
    // Zero would deadlock every plan on admission.
    assert_eq!(cfg_with("[workflows]\nconcurrency = 0\n").workflows.limits().0, 1);
}

#[test]
fn window_resolves_from_the_catalog_when_unconfigured() {
    // The headline fix: the 1M-window default model stops compacting at
    // 160K because someone hardcoded 200_000.
    let (window, warning) =
        cfg_with("").context.resolve_window("big-model", None, Some(1_000_000), 200_000);
    assert_eq!(window, 1_000_000);
    assert!(warning.is_none());

    // A small model gets its small window, so default config stops
    // guaranteeing an overflow on it.
    let (window, _) =
        cfg_with("").context.resolve_window("small-model", None, Some(200_000), 128_000);
    assert_eq!(window, 200_000);
}

#[test]
fn explicit_config_and_env_still_beat_the_catalog() {
    let cfg = cfg_with("[context]\nwindow = 64000\n");
    let resolve = |env: Option<&str>| {
        cfg.context.resolve_window("big-model", env, Some(1_000_000), 200_000).0
    };
    // config.toml over the catalog…
    assert_eq!(resolve(None), 64_000);
    // …and env over config.toml (unchanged project-wide precedence).
    assert_eq!(resolve(Some("32000")), 32_000);
    // A garbage env value is ignored, not fatal — config still wins.
    assert_eq!(resolve(Some("banana")), 64_000);
}

#[test]
fn an_uncatalogued_model_falls_back_loudly_not_silently() {
    let (window, warning) =
        cfg_with("").context.resolve_window("openai/llama3", None, None, 200_000);
    assert_eq!(window, 200_000);
    let warning = warning.expect("must warn — a silent wrong window is the bug we are fixing");
    assert!(warning.contains("llama3"), "{warning}");
    assert!(warning.contains("[context] window"), "name the knob: {warning}");
    // Configured explicitly: no warning, the user has answered the question.
    let cfg = cfg_with("[context]\nwindow = 8192\n");
    let (window, warning) = cfg.context.resolve_window("openai/llama3", None, None, 200_000);
    assert_eq!(window, 8192);
    assert!(warning.is_none());
}

#[test]
fn token_profile_follows_the_model() {
    let cfg = cfg_with("");
    // A catalogued model gets its own ratio…
    assert_eq!(cfg.context.token_profile(Some(3.0), 2.5), 3.0);
    // …and an unknown one gets the conservative default, never a guess.
    assert_eq!(cfg.context.token_profile(None, 2.5), 2.5);
}

#[test]
fn parses_settings_and_domain_sections() {
    let cfg = cfg_with(
        r#"
        [provider]
        model = "openai/gpt-5"
        base_url = "http://localhost:11434/v1"

        [context]
        window = 128000
        evict_tokens = 5000

        [behavior]
        vim_mode = false

        [retention]
        max_age_days = 30
        max_sessions = 100

        [[allow]]
        tool = "bash"
        prefix = "cargo "

        [[mcp]]
        name = "docs"
        command = "/bin/docs"
        description = "d"

        [[hook]]
        event = "pre_tool"
        command = "/bin/guard"

        [diagnostics]
        rs = "cargo check"
        "#,
    );
    assert_eq!(cfg.provider.model.as_deref(), Some("openai/gpt-5"));
    assert_eq!(cfg.context.window, Some(128_000));
    assert_eq!(cfg.behavior.vim_mode, Some(false));
    assert_eq!(cfg.retention.max_age_days, Some(30));
    assert_eq!(cfg.retention.max_sessions, Some(100));
    // Domain sections reserialize to their loaders' shapes.
    assert!(cfg.rules_toml().unwrap().contains("prefix = \"cargo \""));
    let mcp = cfg.mcp_toml().unwrap();
    assert!(mcp.contains("[[server]]") && mcp.contains("docs"));
    // The parsed form the registry and `hotl mcp` share.
    let servers = toml::from_str::<toml::Table>(&mcp).unwrap();
    let servers = servers["server"].as_array().unwrap();
    assert_eq!(servers.len(), 1);
    assert_eq!(servers[0]["name"].as_str(), Some("docs"));
    assert_eq!(servers[0]["command"].as_str(), Some("/bin/docs"));
    let hooks = cfg.hooks_toml().unwrap();
    assert!(hooks.contains("pre_tool") && hooks.contains("cargo check"));
}

#[test]
fn mcp_servers_is_empty_without_a_section() {
    assert!(cfg_with("[provider]\nmodel = \"x\"\n").mcp_toml().is_none());
}

#[test]
fn behavior_max_turns_parses_including_the_unlimited_sentinel() {
    assert_eq!(cfg_with("[behavior]\nmax_turns = 250\n").behavior.max_turns, Some(250));
    // `-1` is the opt-in "no cap" posture — it must survive parsing as a
    // negative, not be rejected or clamped.
    assert_eq!(cfg_with("[behavior]\nmax_turns = -1\n").behavior.max_turns, Some(-1));
    assert_eq!(cfg_with("").behavior.max_turns, None);
}

#[test]
fn retrieval_section_reserializes_for_the_loader() {
    let cfg = cfg_with("[[retrieval]]\nname = \"notes\"\nkind = \"mcp\"\ncommand = \"/bin/rag\"\n");
    let t = cfg.retrieval_toml().unwrap();
    assert!(t.contains("[[backend]]") && t.contains("notes"));
    assert!(cfg_with("").retrieval_toml().is_none());
}

#[test]
fn rules_toml_carries_both_allow_and_deny_sections() {
    let cfg = cfg_with(
        r#"
[[allow]]
tool = "bash"
prefix = "cargo "

[[deny]]
tool = "read"
path_prefix = "/Volumes/secrets"
"#,
    );
    let t = cfg.rules_toml().unwrap();
    let rules = toml::from_str::<toml::Table>(&t).unwrap();
    assert_eq!(rules["allow"][0]["prefix"].as_str(), Some("cargo "));
    assert_eq!(
        rules["deny"][0]["path_prefix"].as_str(),
        Some("/Volumes/secrets"),
        "a user [[deny]] must reach the rules: {t}"
    );
    // Neither section present → nothing, so the caller can fall back.
    assert!(cfg_with("[provider]\nmodel = \"x\"\n").rules_toml().is_none());
    // Only a deny section is still a rule set.
    assert!(cfg_with("[[deny]]\ntool = \"read\"\npath_prefix = \"/x\"\n").rules_toml().is_some());
}

#[test]
fn concurrency_section_parses_and_defaults_absent() {
    let cfg = cfg_with(
        "[concurrency]\nagents = 2\nrequests = 3\nsubprocs = 6\nworker_threads = 4\nblocking_threads = 32\n",
    );
    assert_eq!(cfg.concurrency.agents, Some(2));
    assert_eq!(cfg.concurrency.requests, Some(3));
    assert_eq!(cfg.concurrency.subprocs, Some(6));
    assert_eq!(cfg.concurrency.worker_threads, Some(4));
    assert_eq!(cfg.concurrency.blocking_threads, Some(32));
    let absent = cfg_with("");
    assert_eq!(absent.concurrency.agents, None);
    assert_eq!(absent.concurrency.requests, None);
    assert_eq!(absent.concurrency.subprocs, None);
}

#[test]
fn minify_section_passes_through_and_is_absent_by_default() {
    let cfg = cfg_with("[minify]\nenable = false\nkeep_comments = false\n");
    let t = cfg.minify_toml().unwrap();
    assert!(t.contains("enable = false"), "was: {t}");
    assert!(t.contains("keep_comments = false"), "was: {t}");
    // Absent section: None — both keys default on, so absence and an empty
    // section mean the same thing.
    assert!(cfg_with("").minify_toml().is_none());
}

#[test]
fn web_section_passes_through_for_the_search_tool_loader() {
    let cfg = cfg_with(
        "[web]\n[web.search]\nurl = \"https://s.example/api\"\napi_key_env = \"SEARCH_KEY\"\n",
    );
    let t = cfg.web_toml().unwrap();
    assert!(t.contains("[search]"), "was: {t}");
    assert!(t.contains("https://s.example/api"));
    assert!(t.contains("SEARCH_KEY"));
    // Absent [web] section: None — web_fetch registers regardless (it
    // needs no config), web_search simply never gets built.
    assert!(cfg_with("").web_toml().is_none());
}

#[test]
fn provider_helper_keys_parse() {
    let cfg = cfg_with(
        "[provider]\napi_key_helper = \"mint-key --gw\"\napi_key_helper_ttl_secs = 300\n",
    );
    assert_eq!(cfg.provider.api_key_helper.as_deref(), Some("mint-key --gw"));
    assert_eq!(cfg.provider.api_key_helper_ttl_secs, Some(300));
}

#[test]
fn provider_cache_breakpoints_parses_as_a_tri_state() {
    assert_eq!(cfg_with("").provider.cache_breakpoints, None);
    assert_eq!(
        cfg_with("[provider]\ncache_breakpoints = true\n").provider.cache_breakpoints,
        Some(true)
    );
    assert_eq!(
        cfg_with("[provider]\ncache_breakpoints = false\n").provider.cache_breakpoints,
        Some(false)
    );
}

#[test]
fn network_egress_parses_and_unknown_fails_closed() {
    // Absent section: Open, no warning (the default is today's behavior).
    let (policy, warning) = egress(&cfg_with(""));
    assert_eq!(policy, EgressPolicy::Open);
    assert!(warning.is_none());
    // Explicit modes.
    let (policy, warning) = egress(&cfg_with("[network]\negress = \"off\"\n"));
    assert_eq!(policy, EgressPolicy::Off);
    assert!(warning.is_none());
    let cfg = cfg_with(
        "[network]\negress = \"allowlist\"\ndefaults = false\nallow = [\"github.com\", \"*.crates.io\"]\n",
    );
    let (policy, warning) = egress(&cfg);
    assert_eq!(
        policy,
        EgressPolicy::Allowlist(vec!["github.com".into(), "*.crates.io".into()])
    );
    assert!(warning.is_none());
    // Unknown value: fail closed to Off, loudly — never open.
    let (policy, warning) = egress(&cfg_with("[network]\negress = \"opne\"\n"));
    assert_eq!(policy, EgressPolicy::Off);
    assert!(warning.unwrap().contains("opne"));
}

#[test]
fn starter_allow_is_merged_and_deduped() {
    let cfg = cfg_with(
        "[network]\negress = \"allowlist\"\nallow = [\"github.com\", \"internal.example.com\"]\n",
    );
    let effective = allow(&cfg);
    assert_eq!(
        effective.iter().filter(|h| *h == "github.com").count(),
        1,
        "github.com is on the starter list; config must not double it"
    );
    assert!(effective.contains(&"internal.example.com".to_string()));
    assert_eq!(effective.len(), starter().len() + 1, "exactly one entry is new: {effective:?}");
    // Order-stable, starter entries first.
    assert_eq!(effective[0], starter()[0].entry);
    assert_eq!(effective.last().unwrap(), "internal.example.com");
}

#[test]
fn starter_dedup_is_case_and_trailing_dot_insensitive() {
    let cfg = cfg_with("[network]\negress = \"allowlist\"\nallow = [\"GitHub.com.\"]\n");
    assert_eq!(
        allow(&cfg).len(),
        starter().len(),
        "a differently-spelled starter host must not add a second entry"
    );
}

#[test]
fn defaults_false_yields_exactly_the_user_list() {
    let cfg = cfg_with(
        "[network]\negress = \"allowlist\"\ndefaults = false\nallow = [\"internal.example.com\"]\n",
    );
    assert_eq!(allow(&cfg), vec!["internal.example.com".to_string()]);
    assert_eq!(cfg.network.starter_count(starter().len()), 0);
    assert_eq!(cfg_with("").network.starter_count(starter().len()), starter().len());
}

#[test]
fn egress_open_and_off_are_unaffected_by_the_starter_list() {
    let (policy, _) = egress(&cfg_with("[network]\negress = \"open\"\n"));
    assert_eq!(policy, EgressPolicy::Open);
    let (policy, _) = egress(&cfg_with("[network]\negress = \"off\"\n"));
    assert_eq!(policy, EgressPolicy::Off);
}

#[test]
fn permissions_mode_resolves_with_env_and_fails_closed() {
    // Absent → the product default: bypass, plan off, no warning.
    let r = cfg_with("").permissions.resolve(None, None);
    assert_eq!(r.mode, PermissionMode::Bypass);
    assert!(!r.plan);
    assert!(r.warning.is_none());
    // Explicit ask.
    let r = cfg_with("[permissions]\nmode = \"ask\"\n").permissions.resolve(None, None);
    assert_eq!(r.mode, PermissionMode::Ask);
    // Env beats config.
    let r = cfg_with("[permissions]\nmode = \"ask\"\n").permissions.resolve(Some("bypass"), None);
    assert_eq!(r.mode, PermissionMode::Bypass);
    // Typo fails closed to ask, loudly — never silently bypass.
    let r = cfg_with("[permissions]\nmode = \"byapss\"\n").permissions.resolve(None, None);
    assert_eq!(r.mode, PermissionMode::Ask);
    assert!(r.warning.unwrap().contains("byapss"));
    // dontask parses from config and from HOTL_PERMISSIONS.
    let r = cfg_with("[permissions]\nmode = \"dontask\"\n").permissions.resolve(None, None);
    assert_eq!(r.mode, PermissionMode::DontAsk);
    assert!(r.warning.is_none());
    let r = cfg_with("").permissions.resolve(Some("dontask"), None);
    assert_eq!(r.mode, PermissionMode::DontAsk);
}

#[test]
fn legacy_mode_words_still_resolve() {
    for src in ["[permissions]\nmode = \"auto\"\n", "[permissions]\nmode = \"AUTO\"\n"] {
        let r = cfg_with(src).permissions.resolve(None, None);
        assert_eq!(r.mode, PermissionMode::Bypass, "{src}");
        assert!(!r.plan);
        assert!(r.warning.is_none(), "a legacy name is not a typo");
    }
    // `plan` turns the overlay on and leaves the mode at its default —
    // it never named one, so it must not fail closed as a typo would.
    let r = cfg_with("[permissions]\nmode = \"plan\"\n").permissions.resolve(None, None);
    assert_eq!(r.mode, PermissionMode::Bypass);
    assert!(r.plan);
    assert!(r.warning.is_none());
    let r = cfg_with("").permissions.resolve(Some("plan"), None);
    assert!(r.plan);
}

#[test]
fn plan_resolves_independently_of_mode() {
    // The two axes compose: an explicit plan flag rides any mode.
    let r = cfg_with("[permissions]\nmode = \"dontask\"\nplan = true\n")
        .permissions
        .resolve(None, None);
    assert_eq!(r.mode, PermissionMode::DontAsk);
    assert!(r.plan);
    // HOTL_PLAN beats the config key, in both directions.
    let r = cfg_with("[permissions]\nplan = true\n").permissions.resolve(None, Some("0"));
    assert!(!r.plan);
    let r = cfg_with("[permissions]\nplan = false\n").permissions.resolve(None, Some("1"));
    assert!(r.plan);
    // A bare `HOTL_PLAN=` reads as "asked for it", not as unset.
    assert!(cfg_with("").permissions.resolve(None, Some("")).plan);
    assert!(cfg_with("").permissions.resolve(None, Some("yes")).plan);
    assert!(!cfg_with("").permissions.resolve(None, Some("false")).plan);
}

#[test]
fn vim_mode_parses_and_defaults() {
    let cfg = cfg_with("[behavior]\nvim_mode = false\n");
    assert_eq!(cfg.behavior.vim_mode, Some(false));
    assert_eq!(cfg_with("").behavior.vim_mode, None);
}

#[test]
fn vim_mode_resolves_off_unless_opted_in() {
    // Absent section, and an explicit `false`: plain insert-mode editing.
    assert!(!cfg_with("").behavior.vim_mode());
    assert!(!cfg_with("[behavior]\nvim_mode = false\n").behavior.vim_mode());
    // Only an explicit `true` turns the modal editor on.
    assert!(cfg_with("[behavior]\nvim_mode = true\n").behavior.vim_mode());
}

#[test]
fn mouse_parses_and_resolves_on_unless_opted_out() {
    assert_eq!(cfg_with("").behavior.mouse, None);
    assert!(cfg_with("").behavior.mouse(), "capture is on by default");
    assert!(!cfg_with("[behavior]\nmouse = false\n").behavior.mouse());
}

#[test]
fn copy_on_select_parses_and_resolves_on_unless_opted_out() {
    assert_eq!(cfg_with("").behavior.copy_on_select, None);
    assert!(cfg_with("").behavior.copy_on_select(), "drag-to-copy is on by default");
    assert!(!cfg_with("[behavior]\ncopy_on_select = false\n").behavior.copy_on_select());
}

#[test]
fn history_parses_and_falls_back_to_defaults() {
    // Absent section: the product defaults (on, 1000 entries, 2 MiB).
    let cfg = cfg_with("");
    assert!(cfg.history.is_enabled());
    assert_eq!(cfg.history.max_entries(), 1000);
    assert_eq!(cfg.history.max_bytes(), 2 * 1024 * 1024);

    // Explicit values override.
    let cfg = cfg_with(
        "[history]\nenabled = false\nmax_entries = 5\nmax_bytes = 4096\npath = \"~/h.jsonl\"\n",
    );
    assert!(!cfg.history.is_enabled());
    assert_eq!(cfg.history.max_entries(), 5);
    assert_eq!(cfg.history.max_bytes(), 4096);
}

#[test]
fn history_path_expands_home_and_defaults_under_data_dir() {
    // No path → <data-dir>/history.jsonl.
    assert_eq!(
        cfg_with("").history.resolved_path("/data/hotl", Some("/home/u")),
        "/data/hotl/history.jsonl"
    );
    // A `~/`-path expands against HOME.
    let cfg = cfg_with("[history]\npath = \"~/notes/h.jsonl\"\n");
    assert_eq!(
        cfg.history.resolved_path("/data/hotl", Some("/home/u")),
        "/home/u/notes/h.jsonl"
    );
}

fn named(pairs: &[(&str, &str)]) -> Vec<(String, String)> {
    pairs.iter().map(|(a, b)| (a.to_string(), b.to_string())).collect()
}

#[test]
fn skills_marketplaces_parse_and_resolve() {
    let cfg = cfg_with(
        "[skills.marketplaces]\n\
         acme = \"https://github.com/acme/skills.git\"\n\
         team = \"/abs/team-skills\"\n\
         \"bad:name\" = \"/x\"\n",
    );
    let (roots, warnings) = cfg.skills.marketplace_roots("/cfg", Some("/home/u"));
    assert_eq!(
        roots,
        named(&[("acme", "/cfg/marketplaces/acme"), ("team", "/abs/team-skills")])
    );
    assert_eq!(warnings.len(), 1, "{warnings:?}");
    assert!(warnings[0].contains("bad:name"), "{warnings:?}");

    // `~/` expands against HOME; absent section resolves empty.
    let cfg = cfg_with("[skills.marketplaces]\nhome = \"~/team-skills\"\n");
    let (roots, _) = cfg.skills.marketplace_roots("/cfg", Some("/home/u"));
    assert_eq!(roots, named(&[("home", "/home/u/team-skills")]));
    assert!(cfg_with("").skills.marketplace_roots("/cfg", None).0.is_empty());
}

#[test]
fn plugin_sources_parse_and_resolve() {
    let cfg = cfg_with(
        "[plugins.sources]\n\
         acme = \"https://github.com/acme/plugin.git\"\n\
         local = \"/abs/local-plugin\"\n\
         \"bad:name\" = \"/x\"\n",
    );
    let (roots, warnings) = cfg.plugins.plugin_roots("/cfg", None);
    assert_eq!(roots, named(&[("acme", "/cfg/plugins/acme"), ("local", "/abs/local-plugin")]));
    assert_eq!(warnings.len(), 1, "{warnings:?}");
    assert!(warnings[0].contains("bad:name"), "{warnings:?}");
    assert!(cfg_with("").plugins.plugin_roots("/cfg", None).0.is_empty());
}

#[test]
fn git_url_detection() {
    for url in [
        "https://github.com/a/b.git",
        "http://host/repo",
        "git@github.com:a/b.git",
        "ssh://host/repo",
        "/local/path/origin.git",
    ] {
        assert!(is_git_url(url), "{url}");
    }
    for path in ["~/skills", "/abs/dir", "relative/dir"] {
        assert!(!is_git_url(path), "{path}");
    }
}

#[test]
fn empty_or_absent_config_is_defaults_and_none_sections() {
    let (cfg, warning) = Config::load(None, Ok(Settings::default()));
    assert_eq!(warning, None);
    assert!(cfg.provider.model.is_none());
    assert!(cfg.rules_toml().is_none() && cfg.mcp_toml().is_none() && cfg.hooks_toml().is_none());
    assert!(cfg.retention.max_age_days.is_none());
}

#[test]
fn a_malformed_file_warns_and_falls_back() {
    let (cfg, warning) = Config::load(Some("[provider\nmodel = 1"), Ok(Settings::default()));
    assert!(warning.unwrap().contains("config.toml"));
    assert!(cfg.provider.model.is_none() && cfg.mcp_toml().is_none());
    // A typed section that does not fit still lifts what the document holds.
    let (cfg, warning) =
        Config::load(Some("[[mcp]]\nname = \"d\"\n"), Err("expected a string".to_string()));
    assert!(warning.unwrap().contains("expected a string"));
    assert!(cfg.mcp_toml().unwrap().contains("[[server]]"));
}

#[test]
fn a_section_beats_the_standalone_file() {
    let section = Some("a".to_string());
    let file = Some("b".to_string());
    assert_eq!(section_or_file(section, file.clone()), Some("a".to_string()));
    assert_eq!(section_or_file(None, file), Some("b".to_string()));
    assert_eq!(section_or_file(None, None), None);
}

#[test]
fn an_enforced_build_never_bypasses() {
    for mode in [PermissionMode::Ask, PermissionMode::Bypass, PermissionMode::DontAsk] {
        assert_eq!(mode.enforce(false), mode);
    }
    assert_eq!(PermissionMode::Bypass.enforce(true), PermissionMode::Ask);
}

#[test]
fn marked_pairs_are_picked_in_order() {
    let picks = [("a", "x"), ("b", "y"), ("c", "z")];
    assert_eq!(
        hotl::config::pick(&picks, &[true, false, true]),
        vec![("a", "x"), ("c", "z")]
    );
    assert!(hotl::config::pick(&picks, &[false, false, false]).is_empty());
    assert_eq!(hotl::config::pick(&picks, &[true, true, true]), picks.to_vec());
}

#[test]
fn a_configuration_settles_by_what_its_readers_say() {
    let (cfg, warning) = Config::settle("a = 1\n", None, Ok(Settings::default()));
    assert!(warning.is_none());
    assert_eq!(cfg.raw.as_deref(), Some("a = 1\n"));
    // What is no document leaves nothing of it.
    let (cfg, warning) =
        Config::settle("a = \n", Some("no value".to_string()), Ok(Settings::default()));
    assert_eq!(warning.as_deref(), Some("config.toml ignored (parse error): no value"));
    assert!(cfg.raw.is_none());
    // A document whose sections do not fit keeps the document.
    let (cfg, warning) = Config::settle("a = 1\n", None, Err("wrong type".to_string()));
    assert_eq!(warning.as_deref(), Some("config.toml ignored (parse error): wrong type"));
    assert_eq!(cfg.raw.as_deref(), Some("a = 1\n"));
}

#[test]
fn sections_with_unwritable_texts_are_not_lifted() {
    // However the row is spelled: raw, escaped, or over several lines.
    for row in [
        format!("\"{}\"", "'".repeat(256)),
        format!("'{}'", "\"".repeat(256)),
        format!("\"{}\"", "\\u0027".repeat(256)),
        format!("\"\"\"{}\\\n   {}\"\"\"", "'".repeat(128), "'".repeat(128)),
    ] {
        let text = format!("[[deny]]\ntool = {row}\n[minify]\nx = {row}\n[web]\ny = 'fine'\n");
        let (cfg, warning) = Config::load(Some(&text), Ok(Settings::default()));
        assert!(warning.is_none());
        assert!(cfg.rules_toml().is_none());
        assert!(cfg.minify_toml().is_none());
        // Only the part that holds the row is left out.
        assert_eq!(cfg.web_toml().as_deref(), Some("y = \"fine\"\n"));
    }
    // Rows in comments, and rows that fit, do no harm.
    let text = format!(
        "# {}\n[[allow]]\ntool = \"{}\"\n",
        "'".repeat(300),
        "'".repeat(255)
    );
    let (cfg, _) = Config::load(Some(&text), Ok(Settings::default()));
    assert!(cfg.rules_toml().unwrap().contains(&"'".repeat(255)));
}
