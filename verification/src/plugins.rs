//! Plugins: what is loaded of the registered ones, and the tool servers they
//! bring.
use crate::config::{is_git_url, names_git, pairs, PluginsCfg};
use crate::mcp_cli::is_valid_name;
use crate::text::{opt_text, same, texts};
use vstd::prelude::*;
use vstd::string::*;

verus! {

/// A tool server as a turn starts it.
#[derive(Debug, PartialEq, Eq)]
pub struct ServerConfig {
    pub name: String,
    pub command: String,
    pub args: Vec<String>,
    pub description: String,
    pub env: Vec<(String, String)>,
    pub cwd: Option<String>,
}

/// The view of a [`ServerConfig`].
#[verifier::ext_equal]
pub struct ServerV {
    pub name: Seq<char>,
    pub command: Seq<char>,
    pub args: Seq<Seq<char>>,
    pub description: Seq<char>,
    pub env: Seq<(Seq<char>, Seq<char>)>,
    pub cwd: Option<Seq<char>>,
}

impl View for ServerConfig {
    type V = ServerV;

    open spec fn view(&self) -> ServerV {
        ServerV {
            name: self.name@,
            command: self.command@,
            args: texts(self.args@),
            description: self.description@,
            env: pairs(self.env@),
            cwd: opt_text(self.cwd),
        }
    }
}

/// The views of a list of servers.
pub open spec fn servers_view(v: Seq<ServerConfig>) -> Seq<ServerV> {
    Seq::new(v.len(), |i: int| v[i]@)
}

/// A tool server that a plugin brings.
#[derive(Debug, PartialEq, Eq)]
pub struct PluginServer {
    pub name: String,
    pub command: String,
    pub args: Vec<String>,
    pub description: String,
    pub env: Vec<(String, String)>,
    pub cwd: String,
}

/// The view of a [`PluginServer`].
#[verifier::ext_equal]
pub struct PluginServerV {
    pub name: Seq<char>,
    pub command: Seq<char>,
    pub args: Seq<Seq<char>>,
    pub description: Seq<char>,
    pub env: Seq<(Seq<char>, Seq<char>)>,
    pub cwd: Seq<char>,
}

impl View for PluginServer {
    type V = PluginServerV;

    open spec fn view(&self) -> PluginServerV {
        PluginServerV {
            name: self.name@,
            command: self.command@,
            args: texts(self.args@),
            description: self.description@,
            env: pairs(self.env@),
            cwd: self.cwd@,
        }
    }
}

/// The views of a plugin's servers.
pub open spec fn plugin_servers(v: Seq<PluginServer>) -> Seq<PluginServerV> {
    Seq::new(v.len(), |i: int| v[i]@)
}

/// A plugin that loaded.
#[derive(Debug, PartialEq, Eq)]
pub struct PluginEntry {
    /// The name it is registered under.
    pub handle: String,
    /// The name that its manifest gives.
    pub name: String,
    pub version: Option<String>,
    /// How many skills it brings.
    pub skills: usize,
    pub servers: Vec<PluginServer>,
    /// Where its servers keep their data.
    pub plugin_data: String,
}

/// The view of a [`PluginEntry`].
#[verifier::ext_equal]
pub struct PluginV {
    pub handle: Seq<char>,
    pub name: Seq<char>,
    pub version: Option<Seq<char>>,
    pub skills: usize,
    pub servers: Seq<PluginServerV>,
    pub plugin_data: Seq<char>,
}

impl View for PluginEntry {
    type V = PluginV;

    open spec fn view(&self) -> PluginV {
        PluginV {
            handle: self.handle@,
            name: self.name@,
            version: opt_text(self.version),
            skills: self.skills,
            servers: plugin_servers(self.servers@),
            plugin_data: self.plugin_data@,
        }
    }
}

/// The views of a list of plugins.
pub open spec fn plugins_view(v: Seq<PluginEntry>) -> Seq<PluginV> {
    Seq::new(v.len(), |i: int| v[i]@)
}

/// A plugin's server as a turn starts it: its name is the plugin's and its
/// own, and a server that does not describe itself names its plugin.
pub open spec fn qualified(p: PluginV, s: PluginServerV) -> ServerV {
    ServerV {
        name: p.name + ":"@ + s.name,
        command: s.command,
        args: s.args,
        description: if s.description.len() == 0 {
            "from plugin `"@ + p.name + "`"@
        } else {
            s.description
        },
        env: s.env,
        cwd: Some(s.cwd),
    }
}

/// The first `n` servers of a plugin.
pub open spec fn plugin_rows(p: PluginV, n: nat) -> Seq<ServerV>
    decreases n,
{
    if n == 0 {
        Seq::empty()
    } else {
        plugin_rows(p, (n - 1) as nat).push(qualified(p, p.servers[n - 1]))
    }
}

/// The configured servers and those of the first `n` plugins.
pub open spec fn roster(base: Seq<ServerV>, plugins: Seq<PluginV>, n: nat) -> Seq<ServerV>
    decreases n,
{
    if n == 0 {
        base
    } else {
        roster(base, plugins, (n - 1) as nat) + plugin_rows(
            plugins[n - 1],
            plugins[n - 1].servers.len(),
        )
    }
}

fn clone_texts(v: &Vec<String>) -> (r: Vec<String>)
    ensures
        texts(r@) == texts(v@),
{
    let mut out: Vec<String> = Vec::new();
    let mut i: usize = 0;
    while i < v.len()
        invariant
            0 <= i <= v.len(),
            out@.len() == i,
            forall|k: int| 0 <= k < i ==> (#[trigger] out@[k])@ == v@[k]@,
        decreases v.len() - i,
    {
        out.push(v[i].clone());
        i = i + 1;
    }
    assert(texts(out@) =~= texts(v@));
    out
}

fn clone_pairs(v: &Vec<(String, String)>) -> (r: Vec<(String, String)>)
    ensures
        pairs(r@) == pairs(v@),
{
    let mut out: Vec<(String, String)> = Vec::new();
    let mut i: usize = 0;
    while i < v.len()
        invariant
            0 <= i <= v.len(),
            out@.len() == i,
            forall|k: int|
                0 <= k < i ==> (#[trigger] out@[k]).0@ == v@[k].0@ && out@[k].1@ == v@[k].1@,
        decreases v.len() - i,
    {
        out.push((v[i].0.clone(), v[i].1.clone()));
        i = i + 1;
    }
    assert(pairs(out@) =~= pairs(v@));
    out
}

fn qualify(p: &PluginEntry, s: &PluginServer) -> (r: ServerConfig)
    ensures
        r@ == qualified(p@, s@),
{
    let plugin = p.name.as_str();
    let mut name = plugin.to_owned();
    name.append(":");
    name.append(s.name.as_str());
    let description = if s.description.as_str().is_empty() {
        let mut d = "from plugin `".to_owned();
        d.append(plugin);
        d.append("`");
        d
    } else {
        s.description.clone()
    };
    ServerConfig {
        name,
        command: s.command.clone(),
        args: clone_texts(&s.args),
        description,
        env: clone_pairs(&s.env),
        cwd: Some(s.cwd.clone()),
    }
}

/// The whole roster: the configured servers, and every plugin's under a name
/// that carries the plugin's.
pub fn all_mcp_servers(base: Vec<ServerConfig>, plugins: &[PluginEntry]) -> (r: Vec<ServerConfig>)
    ensures
        servers_view(r@) == roster(servers_view(base@), plugins_view(plugins@), plugins@.len()),
{
    let ghost start = servers_view(base@);
    let ghost all = plugins_view(plugins@);
    let mut out = base;
    let mut i: usize = 0;
    while i < plugins.len()
        invariant
            0 <= i <= plugins.len(),
            all == plugins_view(plugins@),
            servers_view(out@) == roster(start, all, i as nat),
        decreases plugins.len() - i,
    {
        let p = &plugins[i];
        assert(all[i as int] == p@);
        let ghost had = servers_view(out@);
        let mut j: usize = 0;
        assert(had + plugin_rows(p@, 0) =~= had);
        while j < p.servers.len()
            invariant
                0 <= j <= p.servers.len(),
                servers_view(out@) == had + plugin_rows(p@, j as nat),
            decreases p.servers.len() - j,
        {
            let s = qualify(p, &p.servers[j]);
            assert(p@.servers[j as int] == p.servers@[j as int]@);
            let ghost before = servers_view(out@);
            out.push(s);
            assert(servers_view(out@) =~= before.push(s@));
            j = j + 1;
            assert(servers_view(out@) =~= had + plugin_rows(p@, j as nat));
        }
        i = i + 1;
    }
    out
}

/// A server that is added by hand cannot take a plugin server's name: no valid
/// name holds the colon that a qualified one does.
pub proof fn added_servers_never_collide(name: Seq<char>, p: PluginV, s: PluginServerV)
    requires
        is_valid_name(name),
    ensures
        name != qualified(p, s).name,
{
    reveal_strlit(":");
    let q = qualified(p, s).name;
    assert(q[p.name.len() as int] == ':');
    if name == q {
        assert(crate::mcp_cli::is_name_char(name[p.name.len() as int]));
    }
}

/// What is loaded so far, and what there is to warn of.
#[derive(Debug)]
pub struct Loading {
    pub entries: Vec<PluginEntry>,
    pub warnings: Vec<String>,
}

/// The view of a [`Loading`].
#[verifier::ext_equal]
pub struct LoadingV {
    pub entries: Seq<PluginV>,
    pub warnings: Seq<Seq<char>>,
}

impl View for Loading {
    type V = LoadingV;

    open spec fn view(&self) -> LoadingV {
        LoadingV { entries: plugins_view(self.entries@), warnings: texts(self.warnings@) }
    }
}

/// The handle of the first plugin of that manifest name.
pub open spec fn holder(entries: Seq<PluginV>, name: Seq<char>) -> Option<Seq<char>>
    decreases entries.len(),
{
    if entries.len() == 0 {
        None
    } else if entries[0].name == name {
        Some(entries[0].handle)
    } else {
        holder(entries.drop_first(), name)
    }
}

/// No two plugins have one manifest name.
pub open spec fn names_differ(entries: Seq<PluginV>) -> bool {
    forall|i: int, j: int|
        0 <= i < j < entries.len() ==> (#[trigger] entries[i]).name != (#[trigger] entries[j]).name
}

/// What becomes of a plugin that was read: its reports are passed on; the
/// first one of a name wins; and one with servers needs its data directory.
pub open spec fn after_reading(
    l: LoadingV,
    entry: Option<PluginV>,
    reports: Seq<Seq<char>>,
) -> (LoadingV, Option<Seq<char>>) {
    let heard = LoadingV { warnings: l.warnings + reports, ..l };
    match entry {
        None => (heard, None),
        Some(e) => match holder(l.entries, e.name) {
            Some(prev) => (
                LoadingV {
                    warnings: heard.warnings.push(
                        "plugin `"@ + e.name + "` (handle `"@ + e.handle
                            + "`) duplicates the manifest name of handle `"@ + prev
                            + "` — skipped"@,
                    ),
                    ..heard
                },
                None,
            ),
            None => (
                LoadingV { entries: l.entries.push(e), ..heard },
                if e.servers.len() > 0 {
                    Some(e.plugin_data)
                } else {
                    None
                },
            ),
        },
    }
}

/// What becomes of the last plugin where its data directory cannot be made:
/// it loads without its servers.
pub open spec fn without_data(l: LoadingV, error: Seq<char>) -> LoadingV {
    let e = l.entries.last();
    LoadingV {
        entries: l.entries.drop_last().push(PluginV { servers: Seq::empty(), ..e }),
        warnings: l.warnings.push(
            "plugin `"@ + e.name + "`: could not create its data directory "@ + e.plugin_data
                + " ("@ + error + ") — its MCP servers are disabled"@,
        ),
    }
}

/// The source that a handle is registered with.
pub open spec fn source_named(sources: Seq<(Seq<char>, Seq<char>)>, handle: Seq<char>) -> Option<
    Seq<char>,
> {
    crate::vars::var(sources, handle)
}

impl PluginsCfg {
    /// Whether a plugin is passed over without a word: it comes from a
    /// repository that was not fetched yet.
    pub fn is_unfetched(&self, handle: &str, is_dir: bool) -> (r: bool)
        ensures
            r == (!is_dir && (source_named(pairs(self.sources@), handle@) matches Some(s)
                && names_git(s))),
    {
        let mut i: usize = 0;
        let ghost all = pairs(self.sources@);
        assert(all.skip(0) =~= all);
        while i < self.sources.len()
            invariant
                0 <= i <= self.sources.len(),
                all == pairs(self.sources@),
                source_named(all, handle@) == source_named(all.skip(i as int), handle@),
            decreases self.sources.len() - i,
        {
            let entry = &self.sources[i];
            assert(all.skip(i as int)[0] == (entry.0@, entry.1@));
            assert(all.skip(i as int).drop_first() =~= all.skip(i + 1));
            if same(entry.0.as_str(), handle) {
                return !is_dir && is_git_url(entry.1.as_str());
            }
            i = i + 1;
        }
        false
    }
}

proof fn holder_finds(entries: Seq<PluginV>, name: Seq<char>)
    ensures
        holder(entries, name) is None ==> forall|i: int|
            0 <= i < entries.len() ==> (#[trigger] entries[i]).name != name,
    decreases entries.len(),
{
    if entries.len() > 0 {
        let rest = entries.drop_first();
        holder_finds(rest, name);
        if holder(entries, name) is None {
            assert forall|i: int| 0 <= i < entries.len() implies (#[trigger] entries[i]).name
                != name by {
                if i > 0 {
                    assert(rest[i - 1] == entries[i]);
                }
            }
        }
    }
}

impl Loading {
    /// Nothing loaded, with the warnings that there are already.
    pub fn new(warnings: Vec<String>) -> (r: Loading)
        ensures
            r@ == (LoadingV { entries: Seq::empty(), warnings: texts(warnings@) }),
            names_differ(r@.entries),
    {
        let r = Loading { entries: Vec::new(), warnings };
        assert(r@.entries =~= Seq::empty());
        r
    }

    fn prior(&self, name: &str) -> (r: Option<String>)
        ensures
            opt_text(r) == holder(self@.entries, name@),
    {
        let ghost all = self@.entries;
        let mut i: usize = 0;
        assert(all.skip(0) =~= all);
        while i < self.entries.len()
            invariant
                0 <= i <= self.entries.len(),
                all == self@.entries,
                holder(all, name@) == holder(all.skip(i as int), name@),
            decreases self.entries.len() - i,
        {
            let e = &self.entries[i];
            assert(all.skip(i as int)[0] == e@);
            assert(all.skip(i as int).drop_first() =~= all.skip(i + 1));
            if same(e.name.as_str(), name) {
                return Some(e.handle.clone());
            }
            i = i + 1;
        }
        None
    }

    fn warn(&mut self, w: String)
        ensures
            final(self)@ == (LoadingV {
                warnings: old(self)@.warnings.push(w@),
                ..old(self)@
            }),
    {
        let ghost before = self@;
        self.warnings.push(w);
        assert(self@ =~= LoadingV { warnings: before.warnings.push(w@), ..before });
    }

    /// Takes a plugin that was read, or what was reported of one that could
    /// not be. Gives back the data directory that must be there before any of
    /// its servers starts.
    pub fn read(&mut self, entry: Option<PluginEntry>, reports: Vec<String>) -> (r: Option<String>)
        requires
            names_differ(old(self)@.entries),
        ensures
            (final(self)@, opt_text(r)) == after_reading(
                old(self)@,
                match entry {
                    Some(e) => Some(e@),
                    None => None,
                },
                texts(reports@),
            ),
            names_differ(final(self)@.entries),
    {
        let ghost before = self@;
        let ghost told = texts(reports@);
        let mut rest = reports;
        self.warnings.append(&mut rest);
        assert(self@ =~= LoadingV { warnings: before.warnings + told, ..before });
        let e = match entry {
            Some(e) => e,
            None => {
                return None;
            },
        };
        if let Some(prev) = self.prior(e.name.as_str()) {
            let mut w = "plugin `".to_owned();
            w.append(e.name.as_str());
            w.append("` (handle `");
            w.append(e.handle.as_str());
            w.append("`) duplicates the manifest name of handle `");
            w.append(prev.as_str());
            w.append("` — skipped");
            self.warn(w);
            return None;
        }
        proof {
            holder_finds(before.entries, e.name@);
        }
        let need = if e.servers.len() > 0 {
            Some(e.plugin_data.clone())
        } else {
            None
        };
        let ghost ev = e@;
        self.entries.push(e);
        assert(self@ =~= LoadingV {
            entries: before.entries.push(ev),
            warnings: before.warnings + told,
        });
        need
    }

    /// Takes the servers from the plugin that was read last: its data
    /// directory could not be made.
    pub fn data_dir_failed(&mut self, error: &str)
        requires
            old(self)@.entries.len() > 0,
            names_differ(old(self)@.entries),
        ensures
            final(self)@ == without_data(old(self)@, error@),
            names_differ(final(self)@.entries),
    {
        let ghost before = self@;
        let ghost last = before.entries.last();
        if let Some(e) = self.entries.pop() {
            assert(e@ == last);
            let mut w = "plugin `".to_owned();
            w.append(e.name.as_str());
            w.append("`: could not create its data directory ");
            w.append(e.plugin_data.as_str());
            w.append(" (");
            w.append(error);
            w.append(") — its MCP servers are disabled");
            let none: Vec<PluginServer> = Vec::new();
            let bare = PluginEntry {
                handle: e.handle,
                name: e.name,
                version: e.version,
                skills: e.skills,
                servers: none,
                plugin_data: e.plugin_data,
            };
            assert(bare@ =~= PluginV { servers: Seq::empty(), ..last });
            let ghost bv = bare@;
            self.entries.push(bare);
            self.warnings.push(w);
            assert(self@.entries =~= before.entries.drop_last().push(bv));
            assert(self@ =~= without_data(before, error@));
        }
    }
}

/// The first plugin of a name wins: what is loaded stays, whatever is read
/// after it.
pub proof fn loaded_plugins_stay(
    l: LoadingV,
    entry: Option<PluginV>,
    reports: Seq<Seq<char>>,
    i: int,
)
    requires
        0 <= i < l.entries.len(),
    ensures
        after_reading(l, entry, reports).0.entries[i] == l.entries[i],
        after_reading(l, entry, reports).0.entries.len() >= l.entries.len(),
{
}

/// Every server of a plugin is offered under the plugin's name and its own, with a
/// colon between; it is started as the plugin says, in the plugin's own directory,
/// and described as the plugin says, or else by the plugin's name.
pub proof fn servers_are_qualified(p: PluginV, s: PluginServerV)
    ensures
        ({
            let q = qualified(p, s);
            &&& q.name == p.name + seq![':'] + s.name
            &&& q.command == s.command && q.args == s.args && q.env == s.env
            &&& q.cwd == Some(s.cwd)
            &&& s.description.len() > 0 ==> q.description == s.description
            &&& s.description.len() == 0 ==> crate::text::occurs(q.description, p.name)
        }),
{
    reveal_strlit(":");
    assert(":"@ =~= seq![':']);
    crate::text::occurs_in_itself(p.name);
    crate::text::occurs_between("from plugin `"@, p.name, "`"@, p.name);
}

proof fn rows_map(p: PluginV, n: nat)
    requires
        n <= p.servers.len(),
    ensures
        plugin_rows(p, n) == p.servers.take(n as int).map_values(|s: PluginServerV| qualified(p, s)),
    decreases n,
{
    let f = |s: PluginServerV| qualified(p, s);
    if n > 0 {
        rows_map(p, (n - 1) as nat);
    }
    assert(plugin_rows(p, n) =~= p.servers.take(n as int).map_values(f));
}

/// The roster is what is configured, unchanged and first, and next every server of
/// every plugin, plugin by plugin in their order, and nothing else.
pub proof fn rosters_hold_every_server(base: Seq<ServerV>, plugins: Seq<PluginV>, n: nat)
    requires
        n <= plugins.len(),
    ensures
        base.is_prefix_of(roster(base, plugins, n)),
        n < plugins.len() ==> roster(base, plugins, n + 1) == roster(base, plugins, n)
            + plugins[n as int].servers.map_values(
            |s: PluginServerV| qualified(plugins[n as int], s),
        ),
        roster(base, plugins, 0) == base,
    decreases n,
{
    if n > 0 {
        rosters_hold_every_server(base, plugins, (n - 1) as nat);
        let r = roster(base, plugins, n);
        assert(r.take(base.len() as int) =~= base);
    } else {
        assert(base.take(base.len() as int) =~= base);
    }
    if n < plugins.len() {
        let p = plugins[n as int];
        rows_map(p, p.servers.len());
        assert(p.servers.take(p.servers.len() as int) =~= p.servers);
    }
}

/// A name is held by the first plugin that has it, and by none where none does.
pub proof fn names_are_held_by_the_first(entries: Seq<PluginV>, name: Seq<char>)
    ensures
        match holder(entries, name) {
            Some(h) => exists|i: int|
                0 <= i < entries.len() && (#[trigger] entries[i]).name == name && entries[i].handle
                    == h && forall|k: int| 0 <= k < i ==> (#[trigger] entries[k]).name != name,
            None => forall|k: int| 0 <= k < entries.len() ==> (#[trigger] entries[k]).name != name,
        },
    decreases entries.len(),
{
    if entries.len() > 0 {
        let t = entries.drop_first();
        names_are_held_by_the_first(t, name);
        if entries[0].name != name {
            match holder(t, name) {
                Some(h) => {
                    let i = choose|i: int|
                        0 <= i < t.len() && (#[trigger] t[i]).name == name && t[i].handle == h
                            && forall|k: int| 0 <= k < i ==> (#[trigger] t[k]).name != name;
                    assert(entries[i + 1] == t[i]);
                    assert forall|k: int| 0 <= k < i + 1 implies (#[trigger] entries[k]).name
                        != name by {
                        if k > 0 {
                            assert(t[k - 1] == entries[k]);
                        }
                    }
                },
                None => {
                    assert forall|k: int| 0 <= k < entries.len() implies (
                    #[trigger] entries[k]).name != name by {
                        if k > 0 {
                            assert(t[k - 1] == entries[k]);
                        }
                    }
                },
            }
        }
    }
}

/// A plugin that was read is loaded, behind those before it, where no other has its
/// name; its data directory is asked for where it has servers. Else it is skipped,
/// with a warning that names it. What its reading reported is passed on either way.
pub proof fn plugins_are_loaded_once(l: LoadingV, e: PluginV, reports: Seq<Seq<char>>)
    ensures
        ({
            let (after, dir) = after_reading(l, Some(e), reports);
            let taken = exists|i: int|
                0 <= i < l.entries.len() && (#[trigger] l.entries[i]).name == e.name;
            &&& !taken ==> {
                &&& after.entries == l.entries + seq![e]
                &&& after.warnings == l.warnings + reports
                &&& dir == (if e.servers.len() > 0 {
                    Some(e.plugin_data)
                } else {
                    None
                })
            }
            &&& taken ==> {
                &&& after.entries == l.entries
                &&& after.warnings.len() == l.warnings.len() + reports.len() + 1
                &&& (l.warnings + reports).is_prefix_of(after.warnings)
                &&& crate::text::occurs(after.warnings.last(), e.name)
                &&& dir is None
            }
        }),
        after_reading(l, None, reports) == (
            LoadingV { warnings: l.warnings + reports, ..l },
            None::<Seq<char>>,
        ),
{
    names_are_held_by_the_first(l.entries, e.name);
    let (after, dir) = after_reading(l, Some(e), reports);
    assert(l.entries.push(e) =~= l.entries + seq![e]);
    if let Some(prev) = holder(l.entries, e.name) {
        let w = after.warnings;
        assert(w.take((l.warnings + reports).len() as int) =~= l.warnings + reports);
        let s = w.last();
        let k = "plugin `"@.len() as int;
        assert(s.subrange(k, k + e.name.len()) =~= e.name);
        assert(crate::text::occurs_at(s, e.name, k));
    }
}

/// A plugin whose data directory cannot be made stays loaded without its servers,
/// with a warning that gives the reason; no other plugin is touched.
pub proof fn plugins_without_data_start_nothing(l: LoadingV, error: Seq<char>)
    requires
        l.entries.len() > 0,
    ensures
        ({
            let after = without_data(l, error);
            let n = l.entries.len();
            &&& after.entries.len() == n
            &&& after.entries.take(n - 1) == l.entries.take(n - 1)
            &&& after.entries.last() == (PluginV { servers: Seq::empty(), ..l.entries.last() })
            &&& after.warnings.len() == l.warnings.len() + 1
            &&& l.warnings.is_prefix_of(after.warnings)
            &&& crate::text::occurs(after.warnings.last(), error)
        }),
{
    let after = without_data(l, error);
    let e = l.entries.last();
    assert(after.entries.take(l.entries.len() - 1) =~= l.entries.take(l.entries.len() - 1));
    assert(after.warnings.take(l.warnings.len() as int) =~= l.warnings);
    let s = after.warnings.last();
    let k = ("plugin `"@ + e.name + "`: could not create its data directory "@ + e.plugin_data
        + " ("@).len() as int;
    assert(s.subrange(k, k + error.len()) =~= error);
    assert(crate::text::occurs_at(s, error, k));
}

/// A handle's source is that of its first registration.
pub proof fn sources_are_found_by_handle(
    sources: Seq<(Seq<char>, Seq<char>)>,
    handle: Seq<char>,
    i: int,
)
    requires
        0 <= i < sources.len(),
        sources[i].0 == handle,
        forall|k: int| 0 <= k < i ==> (#[trigger] sources[k]).0 != handle,
    ensures
        source_named(sources, handle) == Some(sources[i].1),
{
    crate::vars::variables_are_found(sources, handle, i);
}

/// Loaded plugins have names of their own: reading one more keeps it so.
pub proof fn loaded_names_differ(l: LoadingV, entry: Option<PluginV>, reports: Seq<Seq<char>>)
    requires
        l.entries.map_values(|p: PluginV| p.name).no_duplicates(),
    ensures
        after_reading(l, entry, reports).0.entries.map_values(
            |p: PluginV| p.name,
        ).no_duplicates(),
        names_differ(l.entries),
{
    let name = |p: PluginV| p.name;
    let old = l.entries.map_values(name);
    assert forall|i: int, j: int| 0 <= i < j < l.entries.len() implies (
    #[trigger] l.entries[i]).name != (#[trigger] l.entries[j]).name by {
        assert(old[i] != old[j]);
    }
    if let Some(e) = entry {
        names_are_held_by_the_first(l.entries, e.name);
        let new = after_reading(l, entry, reports).0.entries.map_values(name);
        if holder(l.entries, e.name) is None {
            assert(new =~= old.push(e.name));
            assert forall|i: int, j: int| 0 <= i < new.len() && 0 <= j < new.len() && i != j implies
                new[i] != new[j] by {
                if i < old.len() && j < old.len() {
                    assert(old[i] != old[j]);
                } else if i < old.len() {
                    assert(l.entries[i].name != e.name);
                } else {
                    assert(l.entries[j].name != e.name);
                }
            }
        }
    }
}

} // verus!
