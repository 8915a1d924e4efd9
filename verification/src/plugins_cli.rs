//! `hotl plugins`: listing, registering, updating and removing plugins. Git and
//! the file system are worked by the caller; what to do and what to say is
//! decided here.
use crate::config::{is_git_url, names_git, pairs};
use crate::mcp_cli::{is_valid_name, valid_name, warning_lines};
use crate::paths::{expand_home, home_expanded, join as join_path, joined_path};
use crate::plugins::{
    all_mcp_servers, plugins_view, roster, servers_view, PluginEntry, PluginV, ServerConfig,
    ServerV,
};
use crate::text::{
    decimal, decimal_of, group3, group6, has_prefix, join, joined, occurs, occurs_between,
    occurs_in_itself, occurs_on, opt_str, opt_text, same, starts_with, texts,
};
use crate::toml_text::{
    entry, is_quotable, others_stay, printable, quotable, reads_as, reads_as_nothing, toml_entry,
    toml_with, toml_without, with_entry, without_entry, Entry, EntryV,
};
use vstd::prelude::*;
use vstd::string::*;

verus! {

/// How the command is used.
pub const USAGE: &'static str = "usage: hotl plugins [list] | add <handle> <git-url|path> | update [handle] | remove <handle>";

/// What `hotl plugins` is asked to do.
#[derive(Debug, PartialEq, Eq)]
pub enum Verb {
    List,
    Add { handle: String, source: String },
    Update(Option<String>),
    Remove(String),
}

/// The view of a [`Verb`].
#[verifier::ext_equal]
pub enum VerbV {
    List,
    Add(Seq<char>, Seq<char>),
    Update(Option<Seq<char>>),
    Remove(Seq<char>),
}

impl View for Verb {
    type V = VerbV;

    open spec fn view(&self) -> VerbV {
        match *self {
            Verb::List => VerbV::List,
            Verb::Add { handle, source } => VerbV::Add(handle@, source@),
            Verb::Update(h) => VerbV::Update(opt_text(h)),
            Verb::Remove(h) => VerbV::Remove(h@),
        }
    }
}

/// What the arguments ask for; the command's own name comes first.
pub open spec fn verb_of(args: Seq<Seq<char>>) -> Option<VerbV> {
    if args.len() < 2 || args[1] == "list"@ {
        Some(VerbV::List)
    } else if args[1] == "add"@ {
        if args.len() > 3 {
            Some(VerbV::Add(args[2], args[3]))
        } else {
            None
        }
    } else if args[1] == "update"@ {
        Some(
            VerbV::Update(
                if args.len() > 2 {
                    Some(args[2])
                } else {
                    None
                },
            ),
        )
    } else if args[1] == "remove"@ {
        if args.len() > 2 {
            Some(VerbV::Remove(args[2]))
        } else {
            None
        }
    } else {
        None
    }
}

/// What the arguments ask for, or the exit code of a wrong command line.
pub fn verb(args: &[String]) -> (r: Result<Verb, i32>)
    ensures
        match r {
            Ok(v) => verb_of(texts(args@)) == Some(v@),
            Err(code) => verb_of(texts(args@)) is None && code == 2,
        },
{
    let ghost all = texts(args@);
    let n: usize = args.len();
    if n < 2 {
        return Ok(Verb::List);
    }
    assert(all[1] == args@[1]@);
    assert(n > 2 ==> all[2] == args@[2]@);
    assert(n > 3 ==> all[3] == args@[3]@);
    let word = args[1].as_str();
    if same(word, "list") {
        Ok(Verb::List)
    } else if same(word, "add") {
        if n > 3 {
            Ok(Verb::Add { handle: args[2].clone(), source: args[3].clone() })
        } else {
            Err(2)
        }
    } else if same(word, "update") {
        if n > 2 {
            Ok(Verb::Update(Some(args[2].clone())))
        } else {
            Ok(Verb::Update(None))
        }
    } else if same(word, "remove") {
        if n > 2 {
            Ok(Verb::Remove(args[2].clone()))
        } else {
            Err(2)
        }
    } else {
        Err(2)
    }
}

/// The prefix of the names of a plugin's servers.
pub open spec fn server_prefix(p: PluginV) -> Seq<char> {
    p.name + ":"@
}

/// Those of the first `n` servers that go by the plugin's name.
pub open spec fn under_plugin(all: Seq<ServerV>, p: PluginV, n: nat) -> Seq<ServerV>
    decreases n,
{
    if n == 0 {
        Seq::empty()
    } else if has_prefix(all[n - 1].name, server_prefix(p)) {
        under_plugin(all, p, (n - 1) as nat).push(all[n - 1])
    } else {
        under_plugin(all, p, (n - 1) as nat)
    }
}

/// The servers that are listed under a plugin, out of the same roster that a
/// turn loads.
pub fn plugin_roster(base: Vec<ServerConfig>, plugin: PluginEntry) -> (r: Vec<ServerConfig>)
    ensures
        ({
            let all = roster(servers_view(base@), seq![plugin@], 1);
            servers_view(r@) == under_plugin(all, plugin@, all.len())
        }),
{
    let mut prefix = plugin.name.clone();
    prefix.append(":");
    let ghost p = plugin@;
    let mut one: Vec<PluginEntry> = Vec::new();
    one.push(plugin);
    assert(plugins_view(one@) =~= seq![p]);
    let ghost all = roster(servers_view(base@), seq![p], 1);
    let mut rest = all_mcp_servers(base, one.as_slice());
    let ghost full = rest@;
    assert(servers_view(full).len() == full.len());
    let n: usize = rest.len();
    let mut out: Vec<ServerConfig> = Vec::new();
    let mut i: usize = 0;
    assert(servers_view(out@) =~= Seq::empty());
    while i < n
        invariant
            0 <= i <= n,
            n == full.len(),
            rest@ == full.skip(i as int),
            all == servers_view(full),
            prefix@ == server_prefix(p),
            servers_view(out@) == under_plugin(all, p, i as nat),
        decreases n - i,
    {
        let s = rest.remove(0);
        assert(s == full[i as int]);
        assert(rest@ =~= full.skip(i + 1));
        assert(all[i as int] == s@);
        if starts_with(s.name.as_str(), prefix.as_str()) {
            let ghost before = servers_view(out@);
            let ghost sv = s@;
            out.push(s);
            assert(servers_view(out@) =~= before.push(sv));
        }
        i = i + 1;
    }
    out
}

/// A plugin's version, or the word for none.
pub open spec fn version_text(v: Option<Seq<char>>) -> Seq<char> {
    match v {
        Some(s) => s,
        None => "unversioned"@,
    }
}

fn version(v: &Option<String>) -> (r: &str)
    ensures
        r@ == version_text(opt_text(*v)),
{
    match v {
        Some(s) => s.as_str(),
        None => "unversioned",
    }
}

/// The line on a plugin.
pub open spec fn plugin_line(p: PluginV) -> Seq<char> {
    p.name + " ("@ + version_text(p.version) + ", handle `"@ + p.handle + "`): "@ + decimal_of(
        p.skills as nat,
    ) + " skill(s), "@ + decimal_of(p.servers.len()) + " MCP server(s)\n"@
}

/// The lines on the first `n` servers: each name with its trust.
pub open spec fn server_lines(v: Seq<(Seq<char>, Seq<char>)>, n: nat) -> Seq<char>
    decreases n,
{
    if n == 0 {
        Seq::empty()
    } else {
        server_lines(v, (n - 1) as nat) + "  "@ + v[n - 1].0 + "  "@ + v[n - 1].1 + "\n"@
    }
}

/// The servers of each plugin with their trust.
pub open spec fn trust_rows(v: Seq<Vec<(String, String)>>) -> Seq<Seq<(Seq<char>, Seq<char>)>> {
    Seq::new(v.len(), |i: int| pairs(v[i]@))
}

/// The lines on the first `n` plugins and their servers.
pub open spec fn plugin_lines(
    v: Seq<PluginV>,
    rows: Seq<Seq<(Seq<char>, Seq<char>)>>,
    n: nat,
) -> Seq<char>
    decreases n,
{
    if n == 0 {
        Seq::empty()
    } else {
        plugin_lines(v, rows, (n - 1) as nat) + plugin_line(v[n - 1]) + server_lines(
            rows[n - 1],
            rows[n - 1].len(),
        )
    }
}

/// The lines on the first `n` registered repositories that are not fetched.
pub open spec fn unfetched_lines(
    sources: Seq<(Seq<char>, Seq<char>)>,
    fetched: Seq<bool>,
    n: nat,
) -> Seq<char>
    decreases n,
{
    if n == 0 {
        Seq::empty()
    } else {
        let before = unfetched_lines(sources, fetched, (n - 1) as nat);
        if names_git(sources[n - 1].1) && !fetched[n - 1] {
            before + "warning: plugin `"@ + sources[n - 1].0
                + "` is registered but not fetched — run: hotl plugins update "@ + sources[n - 1].0
                + "\n"@
        } else {
            before
        }
    }
}

/// The list as it is printed.
pub open spec fn list_text(
    entries: Seq<PluginV>,
    rows: Seq<Seq<(Seq<char>, Seq<char>)>>,
    warnings: Seq<Seq<char>>,
    sources: Seq<(Seq<char>, Seq<char>)>,
    fetched: Seq<bool>,
) -> Seq<char> {
    (if entries.len() == 0 {
        "no plugins loaded — run: hotl plugins add <handle> <git-url|path>\n"@
    } else {
        plugin_lines(entries, rows, entries.len())
    }) + warning_lines(warnings, warnings.len()) + unfetched_lines(sources, fetched, sources.len())
}

fn push_plugin(out: &mut String, e: &PluginEntry, rows: &Vec<(String, String)>)
    ensures
        final(out)@ == old(out)@ + plugin_line(e@) + server_lines(pairs(rows@), rows@.len()),
{
    let ghost start = out@;
    assert(e@.servers.len() == e.servers@.len());
    out.append(e.name.as_str());
    out.append(" (");
    out.append(version(&e.version));
    out.append(", handle `");
    out.append(e.handle.as_str());
    out.append("`): ");
    out.append(decimal(e.skills as u64).as_str());
    out.append(" skill(s), ");
    out.append(decimal(e.servers.len() as u64).as_str());
    out.append(" MCP server(s)\n");
    assert(out@ =~= start + plugin_line(e@));
    let ghost head = out@;
    let ghost rv = pairs(rows@);
    let mut i: usize = 0;
    assert(head + server_lines(rv, 0) =~= head);
    while i < rows.len()
        invariant
            0 <= i <= rows.len(),
            rv == pairs(rows@),
            out@ == head + server_lines(rv, i as nat),
        decreases rows.len() - i,
    {
        assert(rv[i as int] == (rows@[i as int].0@, rows@[i as int].1@));
        out.append("  ");
        out.append(rows[i].0.as_str());
        out.append("  ");
        out.append(rows[i].1.as_str());
        out.append("\n");
        i = i + 1;
        assert(out@ =~= head + server_lines(rv, i as nat));
    }
}

/// The list as it is printed: `rows` holds the servers of each plugin with
/// their trust, and `fetched` tells for each source whether its checkout is
/// there.
pub fn render_list(
    entries: &[PluginEntry],
    rows: &[Vec<(String, String)>],
    warnings: &[String],
    sources: &[(String, String)],
    fetched: &[bool],
) -> (r: String)
    requires
        rows@.len() == entries@.len(),
        fetched@.len() == sources@.len(),
    ensures
        r@ == list_text(
            plugins_view(entries@),
            trust_rows(rows@),
            texts(warnings@),
            pairs(sources@),
            fetched@,
        ),
{
    let ghost ev = plugins_view(entries@);
    let ghost rv = trust_rows(rows@);
    let mut out = String::new();
    let mut i: usize = 0;
    while i < entries.len()
        invariant
            0 <= i <= entries.len(),
            rows@.len() == entries@.len(),
            ev == plugins_view(entries@),
            rv == trust_rows(rows@),
            out@ == plugin_lines(ev, rv, i as nat),
        decreases entries.len() - i,
    {
        assert(ev[i as int] == entries@[i as int]@);
        assert(rv[i as int] == pairs(rows@[i as int]@));
        let ghost before = out@;
        push_plugin(&mut out, &entries[i], &rows[i]);
        i = i + 1;
        assert(out@ =~= plugin_lines(ev, rv, i as nat));
    }
    if entries.len() == 0 {
        out.append("no plugins loaded — run: hotl plugins add <handle> <git-url|path>\n");
        assert(out@
            =~= "no plugins loaded — run: hotl plugins add <handle> <git-url|path>\n"@);
    }
    let ghost head = out@;
    let ghost wv = texts(warnings@);
    let mut j: usize = 0;
    assert(head + warning_lines(wv, 0) =~= head);
    while j < warnings.len()
        invariant
            0 <= j <= warnings.len(),
            wv == texts(warnings@),
            out@ == head + warning_lines(wv, j as nat),
        decreases warnings.len() - j,
    {
        assert(wv[j as int] == warnings@[j as int]@);
        out.append("warning: ");
        out.append(warnings[j].as_str());
        out.append("\n");
        j = j + 1;
        assert(out@ =~= head + warning_lines(wv, j as nat));
    }
    let ghost mid = out@;
    let ghost sv = pairs(sources@);
    let mut k: usize = 0;
    assert(mid + unfetched_lines(sv, fetched@, 0) =~= mid);
    while k < sources.len()
        invariant
            0 <= k <= sources.len(),
            fetched@.len() == sources@.len(),
            sv == pairs(sources@),
            out@ == mid + unfetched_lines(sv, fetched@, k as nat),
        decreases sources.len() - k,
    {
        let handle = sources[k].0.as_str();
        assert(sv[k as int] == (sources@[k as int].0@, sources@[k as int].1@));
        if is_git_url(sources[k].1.as_str()) && !fetched[k] {
            out.append("warning: plugin `");
            out.append(handle);
            out.append("` is registered but not fetched — run: hotl plugins update ");
            out.append(handle);
            out.append("\n");
        }
        k = k + 1;
        assert(out@ =~= mid + unfetched_lines(sv, fetched@, k as nat));
    }
    out
}

/// Where a plugin lies: its managed checkout, or the local path.
pub open spec fn root_of(
    source: Seq<char>,
    config_dir: Seq<char>,
    handle: Seq<char>,
    home: Option<Seq<char>>,
) -> Seq<char> {
    if names_git(source) {
        joined_path(joined_path(config_dir, "plugins"@), handle)
    } else {
        home_expanded(source, home)
    }
}

/// Where a plugin lies.
pub fn plugin_root(source: &str, config_dir: &str, handle: &str, home: Option<&str>) -> (r: String)
    ensures
        r@ == root_of(source@, config_dir@, handle@, opt_str(home)),
{
    if is_git_url(source) {
        join_path(join_path(config_dir, "plugins").as_str(), handle)
    } else {
        expand_home(source, home)
    }
}

/// A name that is no handle.
pub open spec fn bad_handle(handle: Seq<char>) -> Seq<char> {
    "`"@ + handle
        + "` is not a valid plugin handle (letters, digits, `.`/`_`/`-`, alphanumeric first char, ≤ 64 chars)"@
}

/// Why a handle cannot be registered, given what stands in its place.
pub open spec fn refusal_given(handle: Seq<char>, found: Result<EntryV, Seq<char>>) -> Option<
    Seq<char>,
> {
    match found {
        Err(e) => Some("config.toml is not valid TOML: "@ + e),
        Ok(EntryV::Text(_)) => Some("plugin `"@ + handle + "` is already registered"@),
        Ok(EntryV::Other) => Some("plugin `"@ + handle + "` is already registered"@),
        Ok(_) => None,
    }
}

/// Why a handle cannot be registered in a configuration.
pub open spec fn add_refusal(text: Seq<char>, handle: Seq<char>) -> Option<Seq<char>> {
    if !is_valid_name(handle) {
        Some(bad_handle(handle))
    } else {
        refusal_given(handle, toml_entry(text, "plugins"@, "sources"@, handle))
    }
}

/// What stands at a place, or why the document does not parse.
pub open spec fn found_view(found: Result<Entry, String>) -> Result<EntryV, Seq<char>> {
    match found {
        Ok(e) => Ok(e@),
        Err(e) => Err(e@),
    }
}

/// Why a handle cannot be registered, given what stands in its place.
pub fn refusal(handle: &str, found: &Result<Entry, String>) -> (r: Option<String>)
    ensures
        opt_text(r) == refusal_given(handle@, found_view(*found)),
{
    let taken = match found {
        Err(e) => {
            let mut m = "config.toml is not valid TOML: ".to_owned();
            m.append(e.as_str());
            return Some(m);
        },
        Ok(Entry::Text(_)) => true,
        Ok(Entry::Other) => true,
        Ok(_) => false,
    };
    if taken {
        let mut m = "plugin `".to_owned();
        m.append(handle);
        m.append("` is already registered");
        return Some(m);
    }
    None
}

/// Whether a handle can be registered; nothing has been fetched or written
/// yet.
pub fn check_add(text: &str, handle: &str) -> (r: Result<(), String>)
    ensures
        match r {
            Ok(_) => add_refusal(text@, handle@) is None,
            Err(e) => add_refusal(text@, handle@) == Some(e@),
        },
{
    if !valid_name(handle) {
        let mut e = "`".to_owned();
        e.append(handle);
        e.append(
            "` is not a valid plugin handle (letters, digits, `.`/`_`/`-`, alphanumeric first char, ≤ 64 chars)",
        );
        return Err(e);
    }
    let found = entry(text, "plugins", "sources", handle);
    match refusal(handle, &found) {
        Some(m) => Err(m),
        None => Ok(()),
    }
}

/// Why a repository is not cloned to a place: something stands there already.
pub fn clone_refusal(dest: &str, exists: bool) -> (r: Option<String>)
    ensures
        opt_text(r) == (if exists {
            Some(dest@ + " already exists"@)
        } else {
            None
        }),
{
    if exists {
        let mut m = dest.to_owned();
        m.append(" already exists");
        Some(m)
    } else {
        None
    }
}

/// Why a section that has to be a table is none.
pub open spec fn no_table(is_sources: bool) -> Seq<char> {
    if is_sources {
        "[plugins.sources] in config.toml is not a table"@
    } else {
        "[plugins] in config.toml is not a table"@
    }
}

/// What the edit of a registration gives, whatever the editor returned.
pub fn edited(result: Result<String, bool>) -> (r: Result<String, String>)
    ensures
        match (result, r) {
            (Ok(t), Ok(s)) => s == t,
            (Err(b), Err(e)) => e@ == no_table(b),
            _ => false,
        },
{
    match result {
        Ok(t) => Ok(t),
        Err(is_sources) => {
            if is_sources {
                Err("[plugins.sources] in config.toml is not a table".to_owned())
            } else {
                Err("[plugins] in config.toml is not a table".to_owned())
            }
        },
    }
}

/// Why a source is turned away: the TOML writer cannot put it in quotes.
pub open spec fn unquotable(source: Seq<char>) -> Seq<char> {
    "`"@ + source + "` holds too many quotation marks in a row"@
}

/// The configuration with a handle registered; the rest of its text stays. A
/// source that cannot be put in quotes is turned away. The handle reads back with its source, and every other registration as before.
/// The edit succeeds wherever there was no `[plugins]` section.
pub fn add_entry(text: &str, handle: &str, source: &str) -> (r: Result<String, String>)
    ensures
        match r {
            Ok(t) => add_refusal(text@, handle@) is None && quotable(source@) && toml_with(
                text@,
                "plugins"@,
                "sources"@,
                handle@,
                source@,
            ) == Ok::<Seq<char>, bool>(t@),
            Err(e) => match add_refusal(text@, handle@) {
                Some(m) => e@ == m,
                None => if !quotable(source@) {
                    e@ == unquotable(source@)
                } else {
                    toml_with(text@, "plugins"@, "sources"@, handle@, source@) matches Err(b) && e@
                        == no_table(b)
                },
            },
        },
        is_valid_name(handle@) && quotable(source@) && reads_as(
            text@,
            "plugins"@,
            "sources"@,
            handle@,
            EntryV::NoOuter,
        ) ==> r is Ok,
        printable(source@) && r is Ok ==> reads_as(
            r->Ok_0@,
            "plugins"@,
            "sources"@,
            handle@,
            EntryV::Text(source@),
        ) && others_stay(text@, r->Ok_0@, "plugins"@, "sources"@, handle@),
{
    proof {
        reveal_strlit("plugins");
        reveal_strlit("sources");
        if is_valid_name(handle@) {
            assert forall|i: int| 0 <= i < handle@.len() implies ' ' <= #[trigger] handle@[i]
                && handle@[i] != '\u{7f}' by {
                assert(crate::mcp_cli::is_name_char(handle@[i]));
            }
        }
    }
    match check_add(text, handle) {
        Err(e) => Err(e),
        Ok(_) => {
            if !is_quotable(source) {
                let mut e = "`".to_owned();
                e.append(source);
                e.append("` holds too many quotation marks in a row");
                return Err(e);
            }
            edited(with_entry(text, "plugins", "sources", handle, source))
        },
    }
}

/// The first `n` reports, each on a line of its own.
pub open spec fn report_lines(v: Seq<Seq<char>>, n: nat) -> Seq<char>
    decreases n,
{
    if n == 0 {
        Seq::empty()
    } else {
        report_lines(v, (n - 1) as nat) + "\n  report: "@ + v[n - 1]
    }
}

/// What is said of a plugin that was registered: where it was cloned to, what
/// it holds, and what was reported on loading it.
pub open spec fn added_text(
    handle: Seq<char>,
    cloned_to: Option<Seq<char>>,
    loaded: Option<PluginV>,
    reports: Seq<Seq<char>>,
) -> Seq<char> {
    "registered plugin `"@ + handle + "`"@ + (match cloned_to {
        Some(d) => " (cloned to "@ + d + ")"@,
        None => ""@,
    }) + (match loaded {
        Some(p) => "\nloaded: "@ + p.name + " ("@ + version_text(p.version) + ") — "@ + decimal_of(
            p.skills as nat,
        ) + " skill(s), "@ + decimal_of(p.servers.len()) + " MCP server(s)"@,
        None => "\nthe plugin did not load:"@,
    }) + report_lines(reports, reports.len())
}

fn push_reports(out: &mut String, reports: &[String])
    ensures
        final(out)@ == old(out)@ + report_lines(texts(reports@), reports@.len()),
{
    let ghost head = out@;
    let ghost rv = texts(reports@);
    let mut i: usize = 0;
    assert(head + report_lines(rv, 0) =~= head);
    while i < reports.len()
        invariant
            0 <= i <= reports.len(),
            rv == texts(reports@),
            out@ == head + report_lines(rv, i as nat),
        decreases reports.len() - i,
    {
        assert(rv[i as int] == reports@[i as int]@);
        out.append("\n  report: ");
        out.append(reports[i].as_str());
        i = i + 1;
        assert(out@ =~= head + report_lines(rv, i as nat));
    }
}

/// What is said of a plugin that was registered.
pub fn added(
    handle: &str,
    cloned_to: Option<&str>,
    loaded: &Option<PluginEntry>,
    reports: &[String],
) -> (r: String)
    ensures
        r@ == added_text(
            handle@,
            opt_str(cloned_to),
            match *loaded {
                Some(p) => Some(p@),
                None => None,
            },
            texts(reports@),
        ),
{
    let mut s = "registered plugin `".to_owned();
    s.append(handle);
    s.append("`");
    match cloned_to {
        Some(d) => {
            let ghost before = s@;
            s.append(" (cloned to ");
            s.append(d);
            s.append(")");
            assert(s@ =~= before + (" (cloned to "@ + d@ + ")"@));
        },
        None => {
            s.append("");
        },
    }
    let ghost before = s@;
    match loaded {
        Some(p) => {
            assert(p@.servers.len() == p.servers@.len());
            s.append("\nloaded: ");
            s.append(p.name.as_str());
            s.append(" (");
            s.append(version(&p.version));
            s.append(") — ");
            s.append(decimal(p.skills as u64).as_str());
            s.append(" skill(s), ");
            s.append(decimal(p.servers.len() as u64).as_str());
            s.append(" MCP server(s)");
            assert(s@ =~= before + ("\nloaded: "@ + p@.name + " ("@ + version_text(p@.version)
                + ") — "@ + decimal_of(p@.skills as nat) + " skill(s), "@ + decimal_of(
                p@.servers.len(),
            ) + " MCP server(s)"@));
        },
        None => {
            s.append("\nthe plugin did not load:");
        },
    }
    push_reports(&mut s, reports);
    s
}

/// One step of an update.
#[derive(Debug, PartialEq, Eq)]
pub enum Step {
    /// A local path, which is left alone.
    Skip { handle: String },
    Pull { handle: String, dest: String },
    Clone { handle: String, source: String, dest: String },
}

/// The view of a [`Step`].
#[verifier::ext_equal]
pub enum StepV {
    Skip(Seq<char>),
    Pull(Seq<char>, Seq<char>),
    Clone(Seq<char>, Seq<char>, Seq<char>),
}

impl View for Step {
    type V = StepV;

    open spec fn view(&self) -> StepV {
        match *self {
            Step::Skip { handle } => StepV::Skip(handle@),
            Step::Pull { handle, dest } => StepV::Pull(handle@, dest@),
            Step::Clone { handle, source, dest } => StepV::Clone(handle@, source@, dest@),
        }
    }
}

/// The views of a list of steps.
pub open spec fn steps_view(v: Seq<Step>) -> Seq<StepV> {
    Seq::new(v.len(), |i: int| v[i]@)
}

/// What an update does to one registered plugin.
pub open spec fn step_for(
    handle: Seq<char>,
    source: Seq<char>,
    fetched: bool,
    config_dir: Seq<char>,
) -> StepV {
    let dest = joined_path(joined_path(config_dir, "plugins"@), handle);
    if !names_git(source) {
        StepV::Skip(handle)
    } else if fetched {
        StepV::Pull(handle, dest)
    } else {
        StepV::Clone(handle, source, dest)
    }
}

/// What an update does to the first `n` plugins, or to the one of them that is
/// named.
pub open spec fn steps_of(
    sources: Seq<(Seq<char>, Seq<char>)>,
    fetched: Seq<bool>,
    only: Option<Seq<char>>,
    config_dir: Seq<char>,
    n: nat,
) -> Seq<StepV>
    decreases n,
{
    if n == 0 {
        Seq::empty()
    } else {
        let before = steps_of(sources, fetched, only, config_dir, (n - 1) as nat);
        if only is Some && only != Some(sources[n - 1].0) {
            before
        } else {
            before.push(
                step_for(sources[n - 1].0, sources[n - 1].1, fetched[n - 1], config_dir),
            )
        }
    }
}

/// What is said of a step that was done.
pub open spec fn step_line(s: StepV) -> Seq<char> {
    match s {
        StepV::Skip(h) => h + ": local path — skipped"@,
        StepV::Pull(h, _) => h + ": updated"@,
        StepV::Clone(h, _, _) => h + ": cloned"@,
    }
}

/// What is said of each of some steps.
pub open spec fn step_lines(v: Seq<StepV>) -> Seq<Seq<char>> {
    Seq::new(v.len(), |i: int| step_line(v[i]))
}

/// What an update does; a name that is not registered is an error.
pub fn update_steps(
    sources: &[(String, String)],
    fetched: &[bool],
    only: Option<&str>,
    config_dir: &str,
) -> (r: Result<Vec<Step>, String>)
    requires
        fetched@.len() == sources@.len(),
    ensures
        ({
            let steps = steps_of(
                pairs(sources@),
                fetched@,
                opt_str(only),
                config_dir@,
                sources@.len(),
            );
            match r {
                Ok(v) => steps_view(v@) == steps && (steps.len() > 0 || only is None),
                Err(e) => steps.len() == 0 && (only matches Some(o) && e@ == "no plugin named `"@
                    + o@ + "` is registered"@),
            }
        }),
{
    let ghost sv = pairs(sources@);
    let mut out: Vec<Step> = Vec::new();
    let mut i: usize = 0;
    assert(steps_view(out@) =~= Seq::empty());
    while i < sources.len()
        invariant
            0 <= i <= sources.len(),
            fetched@.len() == sources@.len(),
            sv == pairs(sources@),
            steps_view(out@) == steps_of(sv, fetched@, opt_str(only), config_dir@, i as nat),
        decreases sources.len() - i,
    {
        let handle = sources[i].0.as_str();
        let source = sources[i].1.as_str();
        assert(sv[i as int] == (handle@, source@));
        let wanted = match only {
            Some(o) => same(o, handle),
            None => true,
        };
        if wanted {
            let dest = join_path(join_path(config_dir, "plugins").as_str(), handle);
            let step = if !is_git_url(source) {
                Step::Skip { handle: handle.to_owned() }
            } else if fetched[i] {
                Step::Pull { handle: handle.to_owned(), dest }
            } else {
                Step::Clone { handle: handle.to_owned(), source: source.to_owned(), dest }
            };
            let ghost before = steps_view(out@);
            let ghost st = step@;
            out.push(step);
            assert(steps_view(out@) =~= before.push(st));
        }
        i = i + 1;
    }
    assert(steps_view(out@).len() == out@.len());
    if out.len() == 0 {
        if let Some(o) = only {
            let mut e = "no plugin named `".to_owned();
            e.append(o);
            e.append("` is registered");
            return Err(e);
        }
    }
    Ok(out)
}

/// What is said of an update whose steps were all done.
pub fn updated(steps: &[Step]) -> (r: String)
    ensures
        r@ == (if steps@.len() == 0 {
            "no plugins registered"@
        } else {
            joined(step_lines(steps_view(steps@)), "\n"@)
        }),
{
    if steps.len() == 0 {
        return "no plugins registered".to_owned();
    }
    let mut lines: Vec<String> = Vec::new();
    let mut i: usize = 0;
    while i < steps.len()
        invariant
            0 <= i <= steps.len(),
            lines@.len() == i,
            forall|k: int| 0 <= k < i ==> (#[trigger] lines@[k])@ == step_line(steps@[k]@),
        decreases steps.len() - i,
    {
        let line = match &steps[i] {
            Step::Skip { handle } => {
                let mut s = handle.clone();
                s.append(": local path — skipped");
                s
            },
            Step::Pull { handle, .. } => {
                let mut s = handle.clone();
                s.append(": updated");
                s
            },
            Step::Clone { handle, .. } => {
                let mut s = handle.clone();
                s.append(": cloned");
                s
            },
        };
        lines.push(line);
        i = i + 1;
    }
    assert(texts(lines@) =~= step_lines(steps_view(steps@)));
    join(lines.as_slice(), "\n")
}

/// The arguments that git is run with for a step.
pub open spec fn git_words(s: StepV) -> Seq<Seq<char>> {
    match s {
        StepV::Skip(_) => seq![],
        StepV::Pull(_, dest) => seq!["-C"@, dest, "pull"@, "--ff-only"@],
        StepV::Clone(_, source, dest) => seq!["clone"@, source, dest],
    }
}

/// The arguments that git is run with for a step; none where it is not run.
pub fn git_args(step: &Step) -> (r: Vec<String>)
    ensures
        texts(r@) == git_words(step@),
{
    let mut v: Vec<String> = Vec::new();
    match step {
        Step::Skip { .. } => {},
        Step::Pull { dest, .. } => {
            v.push("-C".to_owned());
            v.push(dest.clone());
            v.push("pull".to_owned());
            v.push("--ff-only".to_owned());
        },
        Step::Clone { source, dest, .. } => {
            v.push("clone".to_owned());
            v.push(source.clone());
            v.push(dest.clone());
        },
    }
    assert(texts(v@) =~= git_words(step@));
    v
}

/// What is said of a git run that failed.
pub fn git_failure(args: &[String]) -> (r: String)
    ensures
        r@ == "`git "@ + joined(texts(args@), " "@) + "` failed (see output above)"@,
{
    let mut s = "`git ".to_owned();
    s.append(join(args, " ").as_str());
    s.append("` failed (see output above)");
    s
}

/// What is said where git itself cannot be run.
pub fn git_missing(error: &str) -> (r: String)
    ensures
        r@ == "cannot run git ("@ + error@ + ") — is git on your PATH?"@,
{
    let mut s = "cannot run git (".to_owned();
    s.append(error);
    s.append(") — is git on your PATH?");
    s
}

/// The source of a handle, given what stands in its place, or why there is none.
pub open spec fn source_given(handle: Seq<char>, found: Result<EntryV, Seq<char>>) -> Result<
    Seq<char>,
    Seq<char>,
> {
    match found {
        Err(e) => Err("config.toml is not valid TOML: "@ + e),
        Ok(EntryV::Text(s)) => Ok(s),
        Ok(_) => Err("no plugin named `"@ + handle + "` is registered"@),
    }
}

/// The source of a registered handle, or why there is none.
pub open spec fn source_or_refusal(text: Option<Seq<char>>, handle: Seq<char>) -> Result<
    Seq<char>,
    Seq<char>,
> {
    match text {
        None => Err("no config.toml — nothing is registered"@),
        Some(t) => source_given(handle, toml_entry(t, "plugins"@, "sources"@, handle)),
    }
}

/// The source of a handle, given what stands in its place.
pub fn source_found(handle: &str, found: Result<Entry, String>) -> (r: Result<String, String>)
    ensures
        match r {
            Ok(s) => source_given(handle@, found_view(found)) == Ok::<Seq<char>, Seq<char>>(s@),
            Err(e) => source_given(handle@, found_view(found)) == Err::<Seq<char>, Seq<char>>(e@),
        },
{
    match found {
        Err(e) => {
            let mut m = "config.toml is not valid TOML: ".to_owned();
            m.append(e.as_str());
            Err(m)
        },
        Ok(Entry::Text(s)) => Ok(s),
        Ok(_) => {
            let mut m = "no plugin named `".to_owned();
            m.append(handle);
            m.append("` is registered");
            Err(m)
        },
    }
}

/// The source that a handle is registered with.
pub fn registered_source(text: Option<&str>, handle: &str) -> (r: Result<String, String>)
    ensures
        match r {
            Ok(s) => source_or_refusal(opt_str(text), handle@) == Ok::<Seq<char>, Seq<char>>(s@),
            Err(e) => source_or_refusal(opt_str(text), handle@) == Err::<Seq<char>, Seq<char>>(e@),
        },
{
    match text {
        Some(t) => source_found(handle, entry(t, "plugins", "sources", handle)),
        None => Err("no config.toml — nothing is registered".to_owned()),
    }
}

/// The configuration without a handle. What it reads back as has nothing under
/// the handle, and every other registration as before.
pub fn remove_entry(text: &str, handle: &str) -> (r: Result<String, String>)
    ensures
        match r {
            Ok(t) => source_or_refusal(Some(text@), handle@) is Ok && toml_without(
                text@,
                "plugins"@,
                "sources"@,
                handle@,
            ) == Some(t@) && reads_as_nothing(t@, "plugins"@, "sources"@, handle@) && others_stay(
                text@,
                t@,
                "plugins"@,
                "sources"@,
                handle@,
            ),
            Err(e) => match source_or_refusal(Some(text@), handle@) {
                Err(m) => e@ == m,
                Ok(_) => toml_without(text@, "plugins"@, "sources"@, handle@) is None && e@
                    == no_table(true),
            },
        },
{
    match registered_source(Some(text), handle) {
        Err(e) => Err(e),
        Ok(_) => match without_entry(text, "plugins", "sources", handle) {
            Some(t) => Ok(t),
            None => Err("[plugins.sources] in config.toml is not a table".to_owned()),
        },
    }
}

/// What is said of a plugin that was removed: its checkout, where one was
/// deleted, and its data, which is kept.
pub fn removed(handle: &str, checkout: Option<&str>, data: Option<&str>) -> (r: String)
    ensures
        r@ == "removed plugin `"@ + handle@ + "`"@ + (match opt_str(checkout) {
            Some(d) => " (checkout "@ + d + " deleted)"@,
            None => ""@,
        }) + (match opt_str(data) {
            Some(d) => "\nits data directory is preserved at "@ + d
                + " — delete it yourself if you want it gone"@,
            None => ""@,
        }),
{
    let mut s = "removed plugin `".to_owned();
    s.append(handle);
    s.append("`");
    let ghost a = s@;
    match checkout {
        Some(d) => {
            s.append(" (checkout ");
            s.append(d);
            s.append(" deleted)");
            assert(s@ =~= a + (" (checkout "@ + d@ + " deleted)"@));
        },
        None => {
            s.append("");
        },
    }
    let ghost b = s@;
    match data {
        Some(d) => {
            s.append("\nits data directory is preserved at ");
            s.append(d);
            s.append(" — delete it yourself if you want it gone");
            assert(s@ =~= b + ("\nits data directory is preserved at "@ + d@
                + " — delete it yourself if you want it gone"@));
        },
        None => {
            s.append("");
        },
    }
    s
}

/// Git is run only for repositories: a local path is never touched.
pub proof fn local_paths_are_left_alone(
    handle: Seq<char>,
    source: Seq<char>,
    fetched: bool,
    config_dir: Seq<char>,
)
    requires
        !names_git(source),
    ensures
        git_words(step_for(handle, source, fetched, config_dir)).len() == 0,
{
}

/// A handle that reads back from a configuration is found with its source, and
/// cannot be registered a second time.
pub proof fn registered_handles_are_found(text: Seq<char>, handle: Seq<char>, source: Seq<char>)
    requires
        reads_as(text, "plugins"@, "sources"@, handle, EntryV::Text(source)),
    ensures
        source_or_refusal(Some(text), handle) == Ok::<Seq<char>, Seq<char>>(source),
        add_refusal(text, handle) is Some,
{
}

/// A registration outlives what is done to another handle.
pub proof fn other_registrations_stay(
    before: Seq<char>,
    after: Seq<char>,
    changed: Seq<char>,
    handle: Seq<char>,
    source: Seq<char>,
)
    requires
        others_stay(before, after, "plugins"@, "sources"@, changed),
        handle != changed,
        source_or_refusal(Some(before), handle) == Ok::<Seq<char>, Seq<char>>(source),
    ensures
        source_or_refusal(Some(after), handle) == Ok::<Seq<char>, Seq<char>>(source),
{
    assert(reads_as(before, "plugins"@, "sources"@, handle, EntryV::Text(source)));
}

/// A handle of which nothing reads back is not found.
pub proof fn removed_handles_are_gone(text: Seq<char>, handle: Seq<char>)
    requires
        reads_as_nothing(text, "plugins"@, "sources"@, handle),
    ensures
        source_or_refusal(Some(text), handle) is Err,
{
}

proof fn verb_words_differ()
    ensures
        "list"@ != "add"@,
        "list"@ != "update"@,
        "list"@ != "remove"@,
        "add"@ != "update"@,
        "add"@ != "remove"@,
        "update"@ != "remove"@,
{
    reveal_strlit("list");
    reveal_strlit("add");
    reveal_strlit("update");
    reveal_strlit("remove");
    assert("list"@.len() != "add"@.len());
    assert("list"@.len() != "update"@.len());
    assert("list"@.len() != "remove"@.len());
    assert("add"@.len() != "update"@.len());
    assert("add"@.len() != "remove"@.len());
    assert("update"@[0] != "remove"@[0]);
}

/// Each word is its verb, with the arguments that follow it; a word that lacks one,
/// or that is no verb, is none; and no word at all lists.
pub proof fn verbs_take_their_arguments(args: Seq<Seq<char>>)
    ensures
        args.len() < 2 || args[1] == "list"@ ==> verb_of(args) == Some(VerbV::List),
        args.len() >= 2 && args[1] == "add"@ ==> verb_of(args) == (if args.len() >= 4 {
            Some(VerbV::Add(args[2], args[3]))
        } else {
            None
        }),
        args.len() >= 2 && args[1] == "update"@ ==> verb_of(args) == Some(
            VerbV::Update(
                if args.len() >= 3 {
                    Some(args[2])
                } else {
                    None
                },
            ),
        ),
        args.len() >= 2 && args[1] == "remove"@ ==> verb_of(args) == (if args.len() >= 3 {
            Some(VerbV::Remove(args[2]))
        } else {
            None
        }),
        args.len() >= 2 && args[1] != "list"@ && args[1] != "add"@ && args[1] != "update"@ && args[1]
            != "remove"@ ==> verb_of(args) is None,
{
    verb_words_differ();
}

/// A plugin's servers on a roster are those under its name and a colon, in order.
pub proof fn servers_go_by_their_plugin(all: Seq<ServerV>, p: PluginV, n: nat)
    requires
        n <= all.len(),
    ensures
        under_plugin(all, p, n) == all.take(n as int).filter(
            |s: ServerV| has_prefix(s.name, p.name + ":"@),
        ),
    decreases n,
{
    reveal(Seq::filter);
    if n > 0 {
        servers_go_by_their_plugin(all, p, (n - 1) as nat);
        assert(all.take(n as int).drop_last() =~= all.take(n - 1));
        assert(all.take(n as int).last() == all[n - 1]);
    }
}

proof fn rows_listed(v: Seq<(Seq<char>, Seq<char>)>, n: nat, i: int)
    requires
        0 <= i < n <= v.len(),
    ensures
        occurs(server_lines(v, n), "  "@ + v[i].0 + "  "@ + v[i].1 + "\n"@),
    decreases n,
{
    let before = server_lines(v, (n - 1) as nat);
    let last = "  "@ + v[n - 1].0 + "  "@ + v[n - 1].1 + "\n"@;
    group6(before, "  "@, v[n - 1].0, "  "@, v[n - 1].1, "\n"@);
    if i < n - 1 {
        rows_listed(v, (n - 1) as nat, i);
    }
    occurs_on(before, last, "  "@ + v[i].0 + "  "@ + v[i].1 + "\n"@);
}

/// The list gives a line to every plugin, with its version, its handle and how many
/// skills and servers it has, and a line to each of its servers, with its trust.
pub proof fn every_plugin_is_listed(
    v: Seq<PluginV>,
    rows: Seq<Seq<(Seq<char>, Seq<char>)>>,
    n: nat,
    i: int,
    k: int,
)
    requires
        0 <= i < n <= v.len(),
        rows.len() == v.len(),
    ensures
        occurs(
            plugin_lines(v, rows, n),
            v[i].name + " ("@ + (match v[i].version {
                Some(x) => x,
                None => "unversioned"@,
            }) + ", handle `"@ + v[i].handle + "`): "@ + decimal_of(v[i].skills as nat)
                + " skill(s), "@ + decimal_of(v[i].servers.len()) + " MCP server(s)\n"@,
        ),
        0 <= k < rows[i].len() ==> occurs(
            plugin_lines(v, rows, n),
            "  "@ + rows[i][k].0 + "  "@ + rows[i][k].1 + "\n"@,
        ),
    decreases n,
{
    let before = plugin_lines(v, rows, (n - 1) as nat);
    let head = plugin_line(v[n - 1]);
    let tail = server_lines(rows[n - 1], rows[n - 1].len());
    let none = Seq::<char>::empty();
    let mine = plugin_line(v[i]);
    if i == n - 1 {
        occurs_in_itself(mine);
        occurs_between(before, mine, tail, mine);
        if 0 <= k < rows[i].len() {
            let row = "  "@ + rows[i][k].0 + "  "@ + rows[i][k].1 + "\n"@;
            rows_listed(rows[i], rows[i].len(), k);
            occurs_between(before + head, tail, none, row);
            assert(plugin_lines(v, rows, n) =~= before + head + tail + none);
        }
    } else {
        every_plugin_is_listed(v, rows, (n - 1) as nat, i, k);
        occurs_between(none, before, head + tail, mine);
        assert(plugin_lines(v, rows, n) =~= none + before + (head + tail));
        if 0 <= k < rows[i].len() {
            let row = "  "@ + rows[i][k].0 + "  "@ + rows[i][k].1 + "\n"@;
            occurs_between(none, before, head + tail, row);
        }
    }
}

/// Every plugin that is registered by an address and was not fetched is pointed out,
/// with the command that fetches it; and no other source changes what is said.
pub proof fn unfetched_plugins_are_pointed_out(
    sources: Seq<(Seq<char>, Seq<char>)>,
    fetched: Seq<bool>,
    n: nat,
    i: int,
)
    requires
        0 <= i < n <= sources.len(),
        fetched.len() == sources.len(),
    ensures
        names_git(sources[i].1) && !fetched[i] ==> occurs(
            unfetched_lines(sources, fetched, n),
            "run: hotl plugins update "@ + sources[i].0 + "\n"@,
        ),
        i == n - 1 && (!names_git(sources[i].1) || fetched[i]) ==> unfetched_lines(
            sources,
            fetched,
            n,
        ) == unfetched_lines(sources, fetched, (n - 1) as nat),
    decreases n,
{
    if names_git(sources[i].1) && !fetched[i] {
        let before = unfetched_lines(sources, fetched, (n - 1) as nat);
        let line = "run: hotl plugins update "@ + sources[i].0 + "\n"@;
        let m = "` is registered but not fetched — run: hotl plugins update "@;
        let h = sources[n - 1].0;
        let last = "warning: plugin `"@ + h + m + h + "\n"@;
        group6(before, "warning: plugin `"@, h, m, h, "\n"@);
        if i == n - 1 {
            notes_end_so(h);
        } else {
            unfetched_plugins_are_pointed_out(sources, fetched, (n - 1) as nat, i);
        }
        occurs_on(before, last, line);
    }
}

proof fn notes_end_so(h: Seq<char>)
    ensures
        occurs(
            "warning: plugin `"@ + h + "` is registered but not fetched — run: hotl plugins update "@
                + h + "\n"@,
            "run: hotl plugins update "@ + h + "\n"@,
        ),
{
    reveal_strlit("` is registered but not fetched — run: hotl plugins update ");
    reveal_strlit("run: hotl plugins update ");
    let m = "` is registered but not fetched — run: hotl plugins update "@;
    let short = "run: hotl plugins update "@;
    let line = short + h + "\n"@;
    let w = "warning: plugin `"@ + h + m + h + "\n"@;
    let k = w.len() - line.len();
    assert(w.subrange(k, w.len() as int) =~= line);
    assert(crate::text::occurs_at(w, line, k));
}

/// A registered source is brought up to date in its own checkout where it was
/// fetched, and cloned there where it was not; a local path is left alone.
pub proof fn sources_are_fetched_as_needed(
    handle: Seq<char>,
    source: Seq<char>,
    config_dir: Seq<char>,
)
    requires
        names_git(source),
    ensures
        ({
            let dest = joined_path(joined_path(config_dir, "plugins"@), handle);
            &&& git_words(step_for(handle, source, true, config_dir)) == seq![
                "-C"@,
                dest,
                "pull"@,
                "--ff-only"@,
            ]
            &&& git_words(step_for(handle, source, false, config_dir)) == seq![
                "clone"@,
                source,
                dest,
            ]
        }),
{
}

/// An update takes every registered source in order, or only the one that is named.
pub proof fn updates_take_what_is_named(
    sources: Seq<(Seq<char>, Seq<char>)>,
    fetched: Seq<bool>,
    only: Option<Seq<char>>,
    config_dir: Seq<char>,
    n: nat,
)
    requires
        n <= sources.len(),
    ensures
        only is None ==> steps_of(sources, fetched, only, config_dir, n) == Seq::new(
            n,
            |i: int| step_for(sources[i].0, sources[i].1, fetched[i], config_dir),
        ),
        n > 0 && only is Some && only->0 == sources[n - 1].0 ==> steps_of(
            sources,
            fetched,
            only,
            config_dir,
            n,
        ) == steps_of(sources, fetched, only, config_dir, (n - 1) as nat) + seq![
            step_for(sources[n - 1].0, sources[n - 1].1, fetched[n - 1], config_dir),
        ],
        n > 0 && only is Some && only->0 != sources[n - 1].0 ==> steps_of(
            sources,
            fetched,
            only,
            config_dir,
            n,
        ) == steps_of(sources, fetched, only, config_dir, (n - 1) as nat),
        steps_of(sources, fetched, only, config_dir, 0).len() == 0,
    decreases n,
{
    if n > 0 {
        updates_take_what_is_named(sources, fetched, only, config_dir, (n - 1) as nat);
    }
    if only is None {
        assert(steps_of(sources, fetched, only, config_dir, n) =~= Seq::new(
            n,
            |i: int| step_for(sources[i].0, sources[i].1, fetched[i], config_dir),
        ));
    }
}

/// A handle can be registered where it is a good name, the configuration can be read,
/// and nothing is registered under it.
pub proof fn free_handles_can_be_registered(text: Seq<char>, handle: Seq<char>)
    ensures
        add_refusal(text, handle) is None <==> is_valid_name(handle) && (toml_entry(
            text,
            "plugins"@,
            "sources"@,
            handle,
        ) matches Ok(e) && !(e is Text) && !(e is Other)),
        !is_valid_name(handle) ==> (add_refusal(text, handle) matches Some(w) && occurs(w, handle)),
{
    let w = bad_handle(handle);
    let k = "`"@.len() as int;
    assert(w.subrange(k, k + handle.len()) =~= handle);
    assert(crate::text::occurs_at(w, handle, k));
}

proof fn reports_listed(v: Seq<Seq<char>>, n: nat, i: int)
    requires
        0 <= i < n <= v.len(),
    ensures
        occurs(report_lines(v, n), "\n  report: "@ + v[i]),
    decreases n,
{
    let before = report_lines(v, (n - 1) as nat);
    group3(before, "\n  report: "@, v[n - 1]);
    if i < n - 1 {
        reports_listed(v, (n - 1) as nat, i);
    }
    occurs_on(before, "\n  report: "@ + v[n - 1], "\n  report: "@ + v[i]);
}

/// What is said of a new registration names the handle and gives every report; where
/// the plugin was cloned, it says where to.
pub proof fn registrations_are_told(
    handle: Seq<char>,
    dest: Seq<char>,
    loaded: Option<PluginV>,
    reports: Seq<Seq<char>>,
    i: int,
)
    ensures
        ("registered plugin `"@ + handle + "`"@).is_prefix_of(
            added_text(handle, None, loaded, reports),
        ),
        occurs(added_text(handle, Some(dest), loaded, reports), "(cloned to "@ + dest + ")"@),
        0 <= i < reports.len() ==> occurs(
            added_text(handle, None, loaded, reports),
            "\n  report: "@ + reports[i],
        ),
        loaded matches Some(p) ==> occurs(
            added_text(handle, None, loaded, reports),
            "loaded: "@ + p.name,
        ),
{
    reveal_strlit(" (cloned to ");
    reveal_strlit("(cloned to ");
    reveal_strlit("\nloaded: ");
    reveal_strlit("loaded: ");
    reveal_strlit("");
    let none = Seq::<char>::empty();
    let head = "registered plugin `"@ + handle + "`"@;
    let plain = added_text(handle, None, loaded, reports);
    assert(plain.take(head.len() as int) =~= head);
    let whole = added_text(handle, Some(dest), loaded, reports);
    let note = "(cloned to "@ + dest + ")"@;
    let k = head.len() as int + 1;
    assert(whole.subrange(k, k + note.len()) =~= note);
    assert(crate::text::occurs_at(whole, note, k));
    if 0 <= i < reports.len() {
        reports_listed(reports, reports.len(), i);
        let tail = report_lines(reports, reports.len());
        let front = plain.take(plain.len() - tail.len());
        occurs_between(front, tail, none, "\n  report: "@ + reports[i]);
        assert(plain =~= front + tail + none);
    }
    if let Some(p) = loaded {
        let x = "loaded: "@ + p.name;
        assert(plain.subrange(k, k + x.len()) =~= x);
        assert(crate::text::occurs_at(plain, x, k));
    }
}

/// A plugin lies in its own checkout where it was fetched, and else where its path says.
pub proof fn plugins_lie_where_they_were_put(
    source: Seq<char>,
    config_dir: Seq<char>,
    handle: Seq<char>,
    home: Option<Seq<char>>,
)
    ensures
        names_git(source) ==> root_of(source, config_dir, handle, home) == joined_path(
            joined_path(config_dir, "plugins"@),
            handle,
        ),
        !names_git(source) ==> root_of(source, config_dir, handle, home) == home_expanded(
            source,
            home,
        ),
        names_git(source) ==> (git_words(step_for(handle, source, false, config_dir)).last()
            == root_of(source, config_dir, handle, home)),
{
}

/// What an update did is told by the handle: updated, cloned, or left alone.
pub proof fn steps_are_told(handle: Seq<char>, source: Seq<char>, config_dir: Seq<char>)
    ensures
        names_git(source) ==> step_line(step_for(handle, source, true, config_dir)) == handle
            + ": updated"@,
        names_git(source) ==> step_line(step_for(handle, source, false, config_dir)) == handle
            + ": cloned"@,
        !names_git(source) ==> forall|f: bool|
            step_line(#[trigger] step_for(handle, source, f, config_dir)) == handle
                + ": local path — skipped"@,
{
}

/// The whole list gives the plugins first, and next every warning and every plugin that
/// was not fetched; without plugins it says so.
pub proof fn lists_are_whole(
    entries: Seq<PluginV>,
    rows: Seq<Seq<(Seq<char>, Seq<char>)>>,
    warnings: Seq<Seq<char>>,
    sources: Seq<(Seq<char>, Seq<char>)>,
    fetched: Seq<bool>,
)
    ensures
        ({
            let all = list_text(entries, rows, warnings, sources, fetched);
            &&& entries.len() > 0 ==> plugin_lines(entries, rows, entries.len()).is_prefix_of(all)
            &&& entries.len() == 0 ==> ("no plugins loaded"@).is_prefix_of(all)
            &&& unfetched_lines(sources, fetched, sources.len()).is_suffix_of(all)
            &&& occurs(all, warning_lines(warnings, warnings.len()))
        }),
{
    let all = list_text(entries, rows, warnings, sources, fetched);
    let a = if entries.len() == 0 {
        "no plugins loaded — run: hotl plugins add <handle> <git-url|path>\n"@
    } else {
        plugin_lines(entries, rows, entries.len())
    };
    let b = warning_lines(warnings, warnings.len());
    let c = unfetched_lines(sources, fetched, sources.len());
    assert(all.take(a.len() as int) =~= a);
    assert(all.skip(all.len() - c.len()) =~= c);
    occurs_in_itself(b);
    occurs_between(a, b, c, b);
    if entries.len() == 0 {
        reveal_strlit("no plugins loaded — run: hotl plugins add <handle> <git-url|path>\n");
        reveal_strlit("no plugins loaded");
        assert(all.take("no plugins loaded"@.len() as int) =~= "no plugins loaded"@);
    }
}

/// A registered source is what is found under its handle; where there is none, or the
/// file cannot be read, the refusal says which.
pub proof fn sources_are_what_is_registered(handle: Seq<char>, e: Seq<char>, s: Seq<char>)
    ensures
        source_given(handle, Ok(EntryV::Text(s))) == Ok::<Seq<char>, Seq<char>>(s),
        source_given(handle, Ok(EntryV::Other)) is Err,
        source_given(handle, Ok(EntryV::NoKey)) is Err,
        source_given(handle, Ok(EntryV::NoOuter)) is Err,
        source_given(handle, Ok(EntryV::NoInner)) is Err,
        source_given(handle, Err(e)) matches Err(w) && e.is_suffix_of(w),
        source_or_refusal(None, handle) is Err,
{
    let w = "config.toml is not valid TOML: "@ + e;
    assert(w.skip(w.len() - e.len()) =~= e);
}

/// A table that is none is named as it stands in the file.
pub proof fn broken_tables_are_named(is_sources: bool, source: Seq<char>)
    ensures
        is_sources ==> occurs(no_table(is_sources), "[plugins.sources]"@),
        !is_sources ==> occurs(no_table(is_sources), "[plugins] "@),
        occurs(unquotable(source), source),
{
    reveal_strlit("[plugins.sources] in config.toml is not a table");
    reveal_strlit("[plugins.sources]");
    reveal_strlit("[plugins] in config.toml is not a table");
    reveal_strlit("[plugins] ");
    let s = no_table(is_sources);
    if is_sources {
        assert(s.subrange(0, 17) =~= "[plugins.sources]"@);
        assert(crate::text::occurs_at(s, "[plugins.sources]"@, 0));
    } else {
        assert(s.subrange(0, 10) =~= "[plugins] "@);
        assert(crate::text::occurs_at(s, "[plugins] "@, 0));
    }
    let u = unquotable(source);
    let k = "`"@.len() as int;
    assert(u.subrange(k, k + source.len()) =~= source);
    assert(crate::text::occurs_at(u, source, k));
}

} // verus!
