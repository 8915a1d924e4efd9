//! The subcommands: tool servers, plugins, setup, retention, background runs.
use hotl::bg::{serve_argv, session_id, started};
use hotl::config::{PluginsCfg, RetentionCfg};
use hotl::gc::{flag_value, human_bytes, is_dry_run, policy, report, Pruned};
use hotl::mcp_cli::{
    add, clip, find, render_list, screen, show, stale_grants, start_agreed, test_report, untrust,
    valid_name, verb, Screen, TrustState, Verb,
};
use hotl::plugins::{all_mcp_servers, Loading, PluginEntry, PluginServer, ServerConfig};
use hotl::plugins_cli;
use hotl::plugins_cli::{
    add_entry, added, check_add, clone_refusal, git_args, git_failure, git_missing, plugin_root,
    plugin_roster,
    registered_source, remove_entry, removed, update_steps, updated, Step,
};
use hotl::toml_text::Entry;
use hotl::setup::{
    expand_file_refs, file_refs, first_run_hint, is_newer, parts, setup_dir_failure, setup_report, should_write,
    Wrote, DEFAULT_CONFIG,
};

fn v(a: &[&str]) -> Vec<String> {
    a.iter().map(|s| s.to_string()).collect()
}

fn server(name: &str) -> ServerConfig {
    ServerConfig {
        name: name.to_string(),
        command: "/bin/docs".to_string(),
        args: Vec::new(),
        description: "d".to_string(),
        env: Vec::new(),
        cwd: None,
    }
}

#[test]
fn list_reports_state_and_stale_grants() {
    let servers = [server("docs")];
    let screens = v(&["screens on first use"]);
    let out = render_list(&servers, &screens, &[], &[]);
    assert!(out.contains("docs") && out.contains("screens on first use"), "{out}");

    // A grant for a server that is no longer configured is called out.
    let out = render_list(&servers, &screens, &[], &v(&["gone"]));
    assert!(out.contains("no longer configured"), "{out}");
    assert!(out.contains("hotl mcp untrust gone"), "{out}");
    assert_eq!(stale_grants(&v(&["docs", "gone"]), &servers), v(&["gone"]));

    // A recorded grant for a configured server reads as trusted.
    let out = render_list(&servers, &v(&["trusted"]), &[], &v(&["docs"]));
    assert!(out.contains("trusted"), "{out}");
    assert!(!out.contains("no longer configured"), "{out}");
}

#[test]
fn list_is_clean_when_nothing_is_configured() {
    let out = render_list(&[], &[], &[], &[]);
    assert!(out.contains("no MCP servers configured"), "{out}");
}

#[test]
fn show_renders_the_screen_text_and_errors_helpfully() {
    let out = show("binary: /bin/docs\nsha256: 00", "fp2:abc", "trusted");
    assert!(out.contains("binary:") && out.contains("sha256:"), "{out}");
    assert!(out.contains("key: fp2:"), "{out}");
    // Errors are prompts: name the known servers and the next command.
    let err = find(&[server("docs")], "nope").unwrap_err();
    assert!(err.contains("docs") && err.contains("hotl mcp list"), "{err}");
    assert_eq!(find(&[server("a"), server("docs")], "docs"), Ok(1));
    assert!(find(&[], "nope").is_err());
}

#[test]
fn add_prints_a_pasteable_block() {
    let out = add("docs", "npx", &["-y".into(), "@acme/docs-mcp".into()]).unwrap();
    assert!(out.contains("[[mcp]]"), "{out}");
    assert!(out.contains("name = \"docs\""), "{out}");
    assert!(out.contains("\"@acme/docs-mcp\""), "{out}");
    assert!(out.contains("does not write this for you"), "{out}");
    assert!(add("bad name", "x", &[]).is_err());
    assert!(add("-leading", "x", &[]).is_err());
    assert!(add("", "x", &[]).is_err());
}

#[test]
fn untrust_revokes_and_reports_the_empty_case() {
    assert!(untrust("docs", &[]).is_err(), "no grant yet");
    let (dropped, said) = untrust("--all", &[]).unwrap();
    assert!(dropped.is_empty() && said.contains("nothing to revoke"), "{said}");

    let (dropped, said) = untrust("docs", &v(&["docs", "other"])).unwrap();
    assert_eq!(dropped, v(&["docs"]));
    assert!(said.contains("revoked"), "{said}");

    let (dropped, said) = untrust("--all", &v(&["docs"])).unwrap();
    assert_eq!(dropped, v(&["docs"]));
    assert!(said.contains("1 grant"), "{said}");
}

#[test]
fn test_records_no_trust() {
    let err = screen("docs", TrustState::Untrusted, "screens on first use", false).unwrap_err();
    assert!(err.contains("needs a terminal"), "{err}");
    assert_eq!(screen("docs", TrustState::Untrusted, "l", true), Ok(Screen::Ask));
    assert_eq!(screen("docs", TrustState::Trusted, "l", false), Ok(Screen::Skip));
    assert_eq!(screen("docs", TrustState::Unhashable, "l", true), Ok(Screen::Ask));
    assert!(screen("docs", TrustState::Unhashable, "l", false).is_err());
}

#[test]
fn mcp_cli_unknown_subcommand_is_usage() {
    assert_eq!(verb(&v(&["mcp", "frobnicate"])), Err(2));
    assert_eq!(verb(&v(&["mcp", "show"])), Err(2));
    assert_eq!(verb(&v(&["mcp", "add", "only-name"])), Err(2));
    assert_eq!(verb(&v(&["mcp", "untrust"])), Err(2));
    assert_eq!(verb(&v(&["mcp"])), Ok(Verb::List));
    assert_eq!(verb(&v(&["mcp", "show", "docs"])), Ok(Verb::Show("docs".to_string())));
}

#[test]
fn valid_name_matches_the_documented_charset() {
    assert!(valid_name("docs") && valid_name("a.b_c-1") && valid_name("9x"));
    assert!(!valid_name("") && !valid_name("-x") && !valid_name("a b") && !valid_name("a/b"));
    assert!(!valid_name(&"a".repeat(65)));
}

#[test]
fn a_tested_server_lists_its_tools() {
    assert!(start_agreed("y\n") && !start_agreed("n\n") && !start_agreed("\n"));
    let out = test_report("docs", &[("search".to_string(), "find a page".to_string())]);
    assert!(out.contains("search") && out.contains("find a page"), "{out}");
    assert_eq!(clip("short"), "short");
    let long = clip(&"x".repeat(500));
    assert!(long.len() < 500, "{long}");
}

fn plugin(handle: &str, name: &str, servers: Vec<PluginServer>) -> PluginEntry {
    PluginEntry {
        handle: handle.to_string(),
        name: name.to_string(),
        version: Some("1.2.0".to_string()),
        skills: 1,
        servers,
        plugin_data: format!("/data/plugin-data/{name}"),
    }
}

fn mem() -> PluginServer {
    PluginServer {
        name: "mem".to_string(),
        command: "npx".to_string(),
        args: Vec::new(),
        description: "from the acme plugin".to_string(),
        env: vec![("K".to_string(), "/acme/v".to_string())],
        cwd: "/acme".to_string(),
    }
}

#[test]
fn plugins_load_dedupes_warns_and_creates_data_dirs() {
    let mut load = Loading::new(Vec::new());
    assert_eq!(
        load.read(
            Some(plugin("a1", "dup.plugin", vec![mem()])),
            v(&["plugin `dup.plugin` differs from its install handle `a1`"])
        ),
        Some("/data/plugin-data/dup.plugin".to_string()),
        "a stdio plugin gets its data dir at discovery"
    );
    assert_eq!(load.read(Some(plugin("a2", "dup.plugin", Vec::new())), Vec::new()), None);
    assert_eq!(
        load.read(Some(plugin("skills-only", "skills-only", Vec::new())), Vec::new()),
        None,
        "a skills-only plugin does not"
    );
    let names: Vec<(&str, &str)> =
        load.entries.iter().map(|e| (e.handle.as_str(), e.name.as_str())).collect();
    assert_eq!(names, vec![("a1", "dup.plugin"), ("skills-only", "skills-only")]);
    assert!(load.warnings.iter().any(|w| w.contains("duplicates")), "{:?}", load.warnings);
    assert!(load.warnings.iter().any(|w| w.contains("install handle")), "{:?}", load.warnings);

    // An unfetched git source skips silently.
    let cfg = PluginsCfg {
        sources: vec![("ghost".to_string(), "https://example.com/ghost.git".to_string())],
    };
    assert!(cfg.is_unfetched("ghost", false));
    assert!(!cfg.is_unfetched("ghost", true));
}

#[test]
fn all_mcp_servers_appends_qualified_plugin_servers() {
    let servers = all_mcp_servers(vec![server("docs")], &[plugin("acme", "acme", vec![mem()])]);
    let names: Vec<&str> = servers.iter().map(|s| s.name.as_str()).collect();
    assert_eq!(names, vec!["docs", "acme:mem"]);
    assert_eq!(servers[1].env, vec![("K".to_string(), "/acme/v".to_string())]);
    assert_eq!(servers[1].cwd.as_deref(), Some("/acme"));
    assert!(servers[1].description.contains("acme"), "{}", servers[1].description);
}

#[test]
fn add_local_path_writes_config_without_cloning_and_reports_contents() {
    let text = add_entry("", "team-plugin", "/plug").unwrap();
    let loaded = Some(plugin("team-plugin", "team-plugin", vec![mem()]));
    let out = added("team-plugin", None, &loaded, &v(&["unsupported transport `sse`"]));
    assert!(out.contains("registered plugin `team-plugin`"), "{out}");
    // Install-time validation: contents and the skipped transport are
    // visible now, not at first run.
    assert!(out.contains("1 skill(s), 1 MCP server(s)"), "{out}");
    assert!(out.contains("unsupported transport"), "{out}");
    assert!(text.contains("[plugins.sources]"), "{text}");
    assert!(!out.contains("cloned"), "no clone for a path: {out}");
    // Duplicate registration and invalid handles error.
    assert!(check_add(&text, "team-plugin").is_err());
    assert!(check_add(&text, "bad:name").is_err());
    assert!(check_add(&text, "other").is_ok());
}

#[test]
fn add_preserves_existing_config_text_and_quotes_dotted_handles() {
    let text =
        add_entry("# my config\n[skills]\nshared = false   # keep\n", "acme.tools", "/p").unwrap();
    assert!(
        text.contains("# my config") && text.contains("shared = false   # keep"),
        "{text}"
    );
    // A dotted handle must round-trip as ONE key, not a nested table —
    // and the loader must see it again.
    let doc = toml::from_str::<toml::Table>(&text).unwrap();
    assert_eq!(doc["plugins"]["sources"]["acme.tools"].as_str(), Some("/p"), "{text}");
    assert_eq!(registered_source(Some(&text), "acme.tools"), Ok("/p".to_string()));
}

#[test]
fn list_shows_components_reports_and_unfetched_warning() {
    let sources = [
        ("acme".to_string(), "/p".to_string()),
        ("ghost".to_string(), "https://example.com/ghost.git".to_string()),
    ];
    let out = plugins_cli::render_list(
        &[plugin("acme", "acme", vec![mem()])],
        &[vec![("acme:mem".to_string(), "trusted".to_string())]],
        &v(&["skipped — unsupported transport `sse`"]),
        &sources,
        &[true, false],
    );
    assert!(out.contains("acme (1.2.0, handle `acme`): 1 skill(s), 1 MCP server(s)"), "{out}");
    assert!(out.contains("acme:mem"), "{out}");
    assert!(out.contains("skipped — unsupported transport `sse`"), "{out}");
    assert!(out.contains("`ghost` is registered but not fetched"), "{out}");
    assert!(out.contains("hotl plugins update ghost"), "{out}");
}

#[test]
fn remove_preserves_local_sources_and_plugin_data() {
    let text = add_entry("", "team", "/team").unwrap();
    assert_eq!(registered_source(Some(&text), "team"), Ok("/team".to_string()));
    let left = remove_entry(&text, "team").unwrap();
    assert!(!left.contains("team"), "{left}");
    let out = removed("team", None, Some("/data/plugin-data/team"));
    assert!(out.contains("preserved"), "{out}");
    assert!(out.contains("/data/plugin-data/team"), "{out}");
    assert!(registered_source(Some(&left), "team").is_err());
    assert!(registered_source(None, "team").is_err());
}

#[test]
fn add_update_remove_manage_a_git_checkout() {
    let source = "/tmp/origin.git";
    let dest = plugin_root(source, "/cfg", "acme", None);
    assert_eq!(dest, "/cfg/plugins/acme");
    let text = add_entry("", "acme", source).unwrap();
    let out = added("acme", Some(&dest), &Some(plugin("acme", "acme", vec![mem()])), &[]);
    assert!(out.contains("cloned to"), "{out}");
    assert!(out.contains("1 skill(s), 1 MCP server(s)"), "{out}");

    let sources = [("acme".to_string(), source.to_string())];
    let steps = update_steps(&sources, &[true], Some("acme"), "/cfg").unwrap();
    assert_eq!(
        steps,
        vec![Step::Pull { handle: "acme".to_string(), dest: dest.clone() }]
    );
    assert!(git_args(&steps[0]).contains(&dest));
    assert!(updated(&steps).contains("acme"));
    let steps = update_steps(&sources, &[false], None, "/cfg").unwrap();
    assert!(matches!(&steps[0], Step::Clone { source: s, .. } if s == source));
    assert!(git_args(&steps[0]).contains(&source.to_string()));
    let local = [("team".to_string(), "/team".to_string())];
    let steps = update_steps(&local, &[true], None, "/cfg").unwrap();
    assert!(matches!(&steps[0], Step::Skip { .. }));

    // Unknown name errors; remove deletes the entry.
    assert!(update_steps(&sources, &[true], Some("nope"), "/cfg").is_err());
    let text = remove_entry(&text, "acme").unwrap();
    assert!(!text.contains("acme"), "{text}");
    assert!(git_failure(&v(&["clone", "x"])).contains("clone"));
}

#[test]
fn plugins_cli_unknown_subcommand_is_usage() {
    assert_eq!(plugins_cli::verb(&v(&["plugins", "frobnicate"])), Err(2));
    assert_eq!(plugins_cli::verb(&v(&["plugins"])), Ok(plugins_cli::Verb::List));
    assert_eq!(
        plugins_cli::verb(&v(&["plugins", "update"])),
        Ok(plugins_cli::Verb::Update(None))
    );
}

#[test]
fn a_plugin_roster_holds_its_own_servers_last() {
    let all = plugin_roster(vec![server("docs")], plugin("acme", "acme", vec![mem()]));
    assert_eq!(all.last().unwrap().name, "acme:mem");
    assert!(add_entry("[plugins\n", "a", "/p").is_err());
    assert!(add_entry("plugins = 3\n", "a", "/p").is_err());
}

#[test]
fn first_run_hint_only_when_absent() {
    assert!(first_run_hint("/cfg/nope", false).is_some());
    assert!(first_run_hint("/cfg", true).is_none());
}

#[test]
fn setup_writes_once_unless_forced() {
    assert!(should_write(false, false));
    assert!(!should_write(true, false));
    assert!(should_write(true, true));
    assert_eq!(setup_report(&Wrote::Created, "/c/config.toml", "/c").1, 0);
    assert_eq!(setup_report(&Wrote::Exists, "/c/config.toml", "/c").1, 0);
    let (said, code) = setup_report(&Wrote::Failed("denied".to_string()), "/c/config.toml", "/c");
    assert!(said.contains("denied") && code != 0, "{said}");
    // The default configuration is a valid document.
    assert!(toml::from_str::<toml::Table>(DEFAULT_CONFIG).is_ok());
    assert!(DEFAULT_CONFIG.contains("allow"));
    assert_eq!(
        setup_dir_failure("/c", "denied"),
        ("hotl: could not create /c: denied".to_string(), 1)
    );
}

#[test]
fn file_refs_expand_and_degrade() {
    let prompt = "summarize @[/tmp/note.txt] please";
    assert_eq!(file_refs(prompt), v(&["/tmp/note.txt"]));
    let out = expand_file_refs(prompt, &[Ok("hello from file".to_string())]);
    assert!(out.contains("hello from file") && out.contains("<file path="));
    assert!(out.starts_with("summarize") && out.trim_end().ends_with("please"));
    // A missing file leaves an inline note, not an error.
    let missing =
        expand_file_refs("see @[/no/such/file]", &[Err("No such file or directory".to_string())]);
    assert!(missing.contains("could not read"));
    // Text with no token is untouched.
    assert_eq!(expand_file_refs("plain prompt", &[]), "plain prompt");
    // Unclosed token is left verbatim.
    assert_eq!(expand_file_refs("oops @[unclosed", &[]), "oops @[unclosed");
}

#[test]
fn version_ordering() {
    assert!(is_newer("0.1.2", "0.2.0"));
    assert!(is_newer("0.1.2", "0.1.3"));
    assert!(is_newer("v0.1.2", "v1.0.0"));
    assert!(!is_newer("0.2.0", "0.1.9"));
    assert!(!is_newer("0.1.2", "0.1.2"));
}

#[test]
fn odd_versions_read_as_zeros() {
    assert_eq!(parts("v1.2.3"), (1, 2, 3));
    assert_eq!(parts("1"), (1, 0, 0));
    assert_eq!(parts("x.y.z"), (0, 0, 0));
}

#[test]
fn session_id_is_prefixed() {
    assert!(session_id(42).starts_with("bg-"));
    assert_ne!(session_id(1), session_id(11));
}

#[test]
fn a_background_run_serves_its_own_session() {
    let argv = serve_argv("bg-1", Some("do it"), Some("name"));
    assert!(argv.contains(&"bg-1".to_string()) && argv.contains(&"do it".to_string()));
    assert!(!serve_argv("bg-1", None, None).contains(&"name".to_string()));
    assert!(started("bg-1", "/log").contains("bg-1"));
}

#[test]
fn flags_come_before_the_file() {
    let cfg = RetentionCfg { max_age_days: Some(30), max_sessions: None };
    let p = policy(&v(&["gc", "--days", "2"]), &cfg);
    assert_eq!(p.max_age, Some(2 * 86_400));
    let p = policy(&v(&["gc"]), &cfg);
    assert_eq!(p.max_age, Some(30 * 86_400));
    assert!(!p.is_noop());
    let none = RetentionCfg { max_age_days: None, max_sessions: None };
    assert!(policy(&v(&["gc"]), &none).is_noop());
    assert!(is_dry_run(&v(&["gc", "--dry-run"])) && !is_dry_run(&v(&["gc"])));
    assert_eq!(flag_value(&v(&["gc", "--a", "b"]), "--a"), Some("b"));
}

#[test]
fn what_was_freed_is_measured() {
    assert_eq!(human_bytes(512), "512 B");
    assert_eq!(human_bytes(1536), "1.5 KB");
    let gone = [Pruned { id: "s1".to_string(), bytes: 2048 }];
    assert_eq!(
        report(&gone, 1, false),
        "pruned 1 session(s), freeing 2.0 KB — plus 1 dead socket(s)."
    );
    assert!(report(&gone, 0, true).contains("s1"));
    assert!(report(&[], 0, false).starts_with("nothing to prune"));
}

#[test]
fn what_stands_at_a_handle_decides() {
    assert_eq!(plugins_cli::refusal("tool", &Ok(Entry::NoOuter)), None);
    assert_eq!(plugins_cli::refusal("tool", &Ok(Entry::NoInner)), None);
    assert_eq!(plugins_cli::refusal("tool", &Ok(Entry::NoKey)), None);
    let taken = Some("plugin `tool` is already registered".to_string());
    assert_eq!(plugins_cli::refusal("tool", &Ok(Entry::Other)), taken);
    assert_eq!(plugins_cli::refusal("tool", &Ok(Entry::Text("u".to_string()))), taken);
    let broken = "config.toml is not valid TOML: bad".to_string();
    assert_eq!(plugins_cli::refusal("tool", &Err("bad".to_string())), Some(broken.clone()));

    assert_eq!(
        plugins_cli::source_found("tool", Ok(Entry::Text("u".to_string()))),
        Ok("u".to_string())
    );
    let missing = "no plugin named `tool` is registered".to_string();
    assert_eq!(plugins_cli::source_found("tool", Ok(Entry::NoKey)), Err(missing.clone()));
    assert_eq!(plugins_cli::source_found("tool", Ok(Entry::Other)), Err(missing));
    assert_eq!(plugins_cli::source_found("tool", Err("bad".to_string())), Err(broken));
}

#[test]
fn a_registration_reads_back_wherever_it_is_put() {
    for text in [
        "",
        "# only a comment",
        "a = 1 # no newline",
        "[plugins]\n",
        "[plugins]\nx = 1\n[next]\ny = 2\n",
        "plugins.x = 1\n[next]\n",
        "plugins.sources.old = \"/old\"\n",
        "[plugins]\nsources.old = \"/old\"\n",
        "[plugins.sources]\nold = \"/old\"\n[[list]]\nq = 1\n",
        "[plugins.sources.deep]\nq = 1\n[plugins]\nz = 2\n",
        "[z]\n[[plugins.sources.x]]\n[z.q]\n[[plugins.sources.x]]\n",
    ] {
        let out = add_entry(text, "acme.tools", "/p 'a' \"b\"").unwrap();
        assert_eq!(
            registered_source(Some(&out), "acme.tools"),
            Ok("/p 'a' \"b\"".to_string()),
            "{out}"
        );
        let old = registered_source(Some(text), "old");
        assert_eq!(registered_source(Some(&out), "old"), old, "{out}");
        let back = remove_entry(&out, "acme.tools").unwrap();
        assert!(registered_source(Some(&back), "acme.tools").is_err(), "{back}");
        assert_eq!(registered_source(Some(&back), "old"), old, "{back}");
    }
    // An inline table takes no entry.
    assert!(add_entry("plugins = { x = 1 }\n", "a", "/p").is_err());
    assert!(add_entry("[plugins]\nsources = { x = \"/x\" }\n", "a", "/p").is_err());
}

#[test]
fn a_checkout_in_the_way_and_a_missing_git_are_told() {
    assert_eq!(clone_refusal("/c/plugins/a", true), Some("/c/plugins/a already exists".to_string()));
    assert_eq!(clone_refusal("/c/plugins/a", false), None);
    assert_eq!(git_missing("not found"), "cannot run git (not found) — is git on your PATH?");
    assert_eq!(git_failure(&v(&["clone", "x"])), "`git clone x` failed (see output above)");
}

#[test]
fn rows_of_marks_that_cannot_be_written_are_turned_away() {
    let fits = "'".repeat(255);
    let long = "\"".repeat(256);
    assert!(hotl::toml_text::is_quotable(&fits));
    assert!(hotl::toml_text::is_quotable(&(fits.clone() + "\"" + &fits)));
    assert!(!hotl::toml_text::is_quotable(&long));
    assert!(!hotl::toml_text::is_quotable(&(fits.clone() + "'")));

    let out = add_entry("", "acme", &fits).unwrap();
    assert_eq!(registered_source(Some(&out), "acme"), Ok(fits.clone()));
    assert_eq!(
        add_entry("", "acme", &long),
        Err(format!("`{long}` holds too many quotation marks in a row"))
    );
    assert!(hotl::mcp_cli::add("docs", &fits, &v(&["--stdio"])).is_ok());
    let refused = Err(
        "the command line of `docs` holds too many quotation marks in a row".to_string()
    );
    assert_eq!(hotl::mcp_cli::add("docs", &long, &[]), refused);
    assert_eq!(hotl::mcp_cli::add("docs", "x", &v(&["ok", &long])), refused);
}
