//! The single config file: what each section means once it is read.
//!
//! Precedence for scalar settings: environment variable, then `config.toml`,
//! then the built-in default.
use crate::mcp_cli::{is_valid_name, valid_name};
use crate::paths::{expand_home, home_expanded, join, joined_path};
use crate::sandbox::SandboxCfg;
use crate::text::{
    ascii_lower, decimal, decimal_of, ends_with, has_prefix, has_suffix, lowered, opt_str, opt_text,
    parse_unsigned, parsed_unsigned, same, starts_with, texts, trim, trimmed,
};
use crate::toml_text::{
    holds, inner, is_writable, lifted, picks_view, problem, toml_holds, toml_inner, toml_lifted,
    toml_problem, writable,
};
use vstd::prelude::*;
use vstd::string::*;

verus! {

/// The borrowed text of an optional string.
pub fn as_deref(o: &Option<String>) -> (r: Option<&str>)
    ensures
        opt_str(r) == opt_text(*o),
{
    match o {
        Some(s) => Some(s.as_str()),
        None => None,
    }
}

/// Name and text pairs, as a table holds them.
pub open spec fn pairs(v: Seq<(String, String)>) -> Seq<(Seq<char>, Seq<char>)> {
    Seq::new(v.len(), |i: int| (v[i].0@, v[i].1@))
}

/// `[skills]`: where skills are read from besides hotl's own directory.
#[derive(Debug)]
pub struct SkillsCfg {
    /// `false` stops reading the other agent's skill directories.
    pub claude: Option<bool>,
    /// Extra sources by name, in the order of their names: a local path, read
    /// in place, or a git URL, read from its managed checkout.
    pub marketplaces: Vec<(String, String)>,
}

impl Default for SkillsCfg {
    fn default() -> (r: Self)
        ensures
            r.claude is None,
            r.marketplaces@.len() == 0,
    {
        SkillsCfg { claude: None, marketplaces: Vec::new() }
    }
}

/// `[plugins.sources]`: plugin packages by handle.
#[derive(Debug)]
pub struct PluginsCfg {
    pub sources: Vec<(String, String)>,
}

impl Default for PluginsCfg {
    fn default() -> (r: Self)
        ensures
            r.sources@.len() == 0,
    {
        PluginsCfg { sources: Vec::new() }
    }
}

/// Whether a source is a git URL rather than a local path.
pub open spec fn names_git(source: Seq<char>) -> bool {
    ||| has_prefix(source, "http://"@)
    ||| has_prefix(source, "https://"@)
    ||| has_prefix(source, "git@"@)
    ||| has_prefix(source, "ssh://"@)
    ||| has_suffix(source, ".git"@)
}

/// A git URL as opposed to a local path: a fetch scheme, an scp-style `git@`
/// prefix, or a trailing `.git`.
pub fn is_git_url(source: &str) -> (r: bool)
    ensures
        r == names_git(source@),
{
    starts_with(source, "http://") || starts_with(source, "https://") || starts_with(
        source,
        "git@",
    ) || starts_with(source, "ssh://") || ends_with(source, ".git")
}

/// Where the source `entry` is read from.
pub open spec fn source_root(
    entry: (Seq<char>, Seq<char>),
    config_dir: Seq<char>,
    sub: Seq<char>,
    home: Option<Seq<char>>,
) -> Seq<char> {
    if names_git(entry.1) {
        joined_path(joined_path(config_dir, sub), entry.0)
    } else {
        home_expanded(entry.1, home)
    }
}

/// The roots of the first `n` sources that have a valid name.
pub open spec fn roots_upto(
    entries: Seq<(Seq<char>, Seq<char>)>,
    config_dir: Seq<char>,
    sub: Seq<char>,
    home: Option<Seq<char>>,
    n: nat,
) -> Seq<(Seq<char>, Seq<char>)>
    decreases n,
{
    if n == 0 {
        Seq::empty()
    } else {
        let before = roots_upto(entries, config_dir, sub, home, (n - 1) as nat);
        let e = entries[n - 1];
        if is_valid_name(e.0) {
            before.push((e.0, source_root(e, config_dir, sub, home)))
        } else {
            before
        }
    }
}

/// The warnings about the first `n` sources: one for each invalid name.
pub open spec fn root_warnings(
    entries: Seq<(Seq<char>, Seq<char>)>,
    head: Seq<char>,
    kind: Seq<char>,
    n: nat,
) -> Seq<Seq<char>>
    decreases n,
{
    if n == 0 {
        Seq::empty()
    } else {
        let before = root_warnings(entries, head, kind, (n - 1) as nat);
        let e = entries[n - 1];
        if is_valid_name(e.0) {
            before
        } else {
            before.push(
                head + e.0 + "` is not a valid "@ + kind
                    + " (letters, digits, `.`/`_`/`-`, alphanumeric first char, ≤ 64 chars) — entry skipped"@,
            )
        }
    }
}

fn source_roots(
    entries: &Vec<(String, String)>,
    config_dir: &str,
    sub: &str,
    home: Option<&str>,
    head: &str,
    kind: &str,
) -> (r: (Vec<(String, String)>, Vec<String>))
    ensures
        pairs(r.0@) == roots_upto(pairs(entries@), config_dir@, sub@, opt_str(home), entries@.len()),
        texts(r.1@) == root_warnings(pairs(entries@), head@, kind@, entries@.len()),
{
    let mut roots: Vec<(String, String)> = Vec::new();
    let mut warnings: Vec<String> = Vec::new();
    let ghost all = pairs(entries@);
    assert(pairs(roots@) =~= Seq::empty());
    assert(texts(warnings@) =~= Seq::empty());
    let mut i: usize = 0;
    while i < entries.len()
        invariant
            0 <= i <= entries.len(),
            all == pairs(entries@),
            pairs(roots@) == roots_upto(all, config_dir@, sub@, opt_str(home), i as nat),
            texts(warnings@) == root_warnings(all, head@, kind@, i as nat),
        decreases entries.len() - i,
    {
        let name = entries[i].0.as_str();
        let source = entries[i].1.as_str();
        assert(all[i as int] == (name@, source@));
        if valid_name(name) {
            let dir = if is_git_url(source) {
                join(join(config_dir, sub).as_str(), name)
            } else {
                expand_home(source, home)
            };
            let ghost before = pairs(roots@);
            roots.push((name.to_owned(), dir));
            assert(pairs(roots@) =~= before.push((name@, dir@)));
        } else {
            let mut w = head.to_owned();
            w.append(name);
            w.append("` is not a valid ");
            w.append(kind);
            w.append(
                " (letters, digits, `.`/`_`/`-`, alphanumeric first char, ≤ 64 chars) — entry skipped",
            );
            let ghost before = texts(warnings@);
            warnings.push(w);
            assert(texts(warnings@) =~= before.push(w@));
        }
        i = i + 1;
    }
    (roots, warnings)
}

impl SkillsCfg {
    /// Resolves the marketplaces to discovery roots: a local path in place
    /// (`~` expanded), a git URL at its managed checkout. An invalid name is
    /// skipped with a warning.
    pub fn marketplace_roots(&self, config_dir: &str, home: Option<&str>) -> (r: (
        Vec<(String, String)>,
        Vec<String>,
    ))
        ensures
            pairs(r.0@) == roots_upto(
                pairs(self.marketplaces@),
                config_dir@,
                "marketplaces"@,
                opt_str(home),
                self.marketplaces@.len(),
            ),
            texts(r.1@) == root_warnings(
                pairs(self.marketplaces@),
                "[skills.marketplaces] `"@,
                "marketplace name"@,
                self.marketplaces@.len(),
            ),
    {
        source_roots(
            &self.marketplaces,
            config_dir,
            "marketplaces",
            home,
            "[skills.marketplaces] `",
            "marketplace name",
        )
    }
}

impl PluginsCfg {
    /// Resolves the sources to plugin roots, in the manner of
    /// [`SkillsCfg::marketplace_roots`].
    pub fn plugin_roots(&self, config_dir: &str, home: Option<&str>) -> (r: (
        Vec<(String, String)>,
        Vec<String>,
    ))
        ensures
            pairs(r.0@) == roots_upto(
                pairs(self.sources@),
                config_dir@,
                "plugins"@,
                opt_str(home),
                self.sources@.len(),
            ),
            texts(r.1@) == root_warnings(
                pairs(self.sources@),
                "[plugins.sources] `"@,
                "handle"@,
                self.sources@.len(),
            ),
    {
        source_roots(
            &self.sources,
            config_dir,
            "plugins",
            home,
            "[plugins.sources] `",
            "handle",
        )
    }
}

/// How a mutating child agent is kept apart.
#[derive(Debug, Clone, Copy, PartialEq, Eq, Structural)]
pub enum Isolation {
    Off,
    Worktree,
}

/// `[agents]`: user-defined subagent shapes.
#[derive(Debug)]
pub struct AgentsCfg {
    /// `false` stops reading the other agent's definitions.
    pub claude: Option<bool>,
    /// `"worktree"` gives every mutating child its own git worktree.
    pub isolation: Option<String>,
}

impl Default for AgentsCfg {
    fn default() -> (r: Self)
        ensures
            r.claude is None,
            r.isolation is None,
    {
        AgentsCfg { claude: None, isolation: None }
    }
}

/// What an `isolation` word means: anything but `worktree` is none.
pub open spec fn isolation_of(word: Seq<char>) -> Isolation {
    if word == "worktree"@ {
        Isolation::Worktree
    } else {
        Isolation::Off
    }
}

/// Reads an `isolation` word; an unknown one means no isolation.
pub fn parse_isolation(word: &str) -> (r: Isolation)
    ensures
        r == isolation_of(word@),
{
    if same(word, "worktree") {
        Isolation::Worktree
    } else {
        Isolation::Off
    }
}

impl AgentsCfg {
    /// The configured default.
    pub fn isolation(&self) -> (r: Isolation)
        ensures
            r == (match opt_text(self.isolation) {
                Some(w) => isolation_of(w),
                None => Isolation::Off,
            }),
    {
        match &self.isolation {
            Some(w) => parse_isolation(w.as_str()),
            None => Isolation::Off,
        }
    }
}

/// `[workflows]`: how far a plan may fan out.
#[derive(Debug)]
pub struct WorkflowsCfg {
    /// Steps that one plan may run at once.
    pub concurrency: Option<usize>,
    /// Agents that one plan may spawn in total.
    pub max_agents: Option<usize>,
}

impl Default for WorkflowsCfg {
    fn default() -> (r: Self)
        ensures
            r.concurrency is None,
            r.max_agents is None,
    {
        WorkflowsCfg { concurrency: None, max_agents: None }
    }
}

/// `o`'s value, else `default`, and at least one.
pub open spec fn at_least_one(o: Option<usize>, default: usize) -> usize {
    let v = match o {
        Some(n) => n,
        None => default,
    };
    if v < 1 {
        1
    } else {
        v
    }
}

fn floor_one(o: Option<usize>, default: usize) -> (r: usize)
    ensures
        r == at_least_one(o, default),
{
    let v: usize = match o {
        Some(n) => n,
        None => default,
    };
    if v < 1 {
        1
    } else {
        v
    }
}

impl WorkflowsCfg {
    /// `(concurrency, max_agents)`, each at least one: a zero would leave
    /// every plan waiting for admission.
    pub fn limits(&self) -> (r: (usize, usize))
        ensures
            r == (at_least_one(self.concurrency, 8), at_least_one(self.max_agents, 1000)),
            r.0 >= 1,
            r.1 >= 1,
    {
        (floor_one(self.concurrency, 8), floor_one(self.max_agents, 1000))
    }
}

/// How tool calls are gated.
#[derive(Debug, Clone, Copy, PartialEq, Eq, Structural)]
pub enum PermissionMode {
    /// Every mutating call asks.
    Ask,
    /// No ordinary prompts.
    Bypass,
    /// What would ask is refused.
    DontAsk,
}

impl PermissionMode {
    /// The mode's word.
    pub open spec fn word(self) -> Seq<char> {
        match self {
            PermissionMode::Ask => "ask"@,
            PermissionMode::Bypass => "bypass"@,
            PermissionMode::DontAsk => "dontask"@,
        }
    }

    /// The mode's word.
    pub fn as_str(self) -> (r: &'static str)
        ensures
            r@ == self.word(),
    {
        match self {
            PermissionMode::Ask => "ask",
            PermissionMode::Bypass => "bypass",
            PermissionMode::DontAsk => "dontask",
        }
    }

    /// The mode that a build enforces: one built for enforcement turns
    /// `bypass` into `ask`.
    pub open spec fn enforced(self, strict: bool) -> PermissionMode {
        if strict && self == PermissionMode::Bypass {
            PermissionMode::Ask
        } else {
            self
        }
    }

    /// The mode that a build enforces.
    pub fn enforce(self, strict: bool) -> (r: PermissionMode)
        ensures
            r == self.enforced(strict),
    {
        if strict && self == PermissionMode::Bypass {
            PermissionMode::Ask
        } else {
            self
        }
    }
}

/// The mode that a word names, whatever its case; `auto` is the old name of
/// `bypass`.
pub open spec fn mode_of(word: Seq<char>) -> Option<PermissionMode> {
    let w = lowered(word);
    if w == "ask"@ {
        Some(PermissionMode::Ask)
    } else if w == "bypass"@ || w == "auto"@ {
        Some(PermissionMode::Bypass)
    } else if w == "dontask"@ {
        Some(PermissionMode::DontAsk)
    } else {
        None
    }
}

/// Whether a mode word is the old spelling of the plan overlay.
pub open spec fn is_plan_word(word: Seq<char>) -> bool {
    lowered(word) == "plan"@
}

/// Reads a mode word.
pub fn parse_mode(word: &str) -> (r: Option<PermissionMode>)
    ensures
        r == mode_of(word@),
{
    let w = ascii_lower(word);
    if same(w.as_str(), "ask") {
        Some(PermissionMode::Ask)
    } else if same(w.as_str(), "bypass") || same(w.as_str(), "auto") {
        Some(PermissionMode::Bypass)
    } else if same(w.as_str(), "dontask") {
        Some(PermissionMode::DontAsk)
    } else {
        None
    }
}

/// Whether a mode word is the old spelling of the plan overlay.
pub fn is_legacy_plan_word(word: &str) -> (r: bool)
    ensures
        r == is_plan_word(word@),
{
    same(ascii_lower(word).as_str(), "plan")
}

/// `[permissions]`: the mode and the plan overlay.
#[derive(Debug)]
pub struct PermissionsCfg {
    /// `"bypass"` (the default), `"ask"` or `"dontask"`.
    pub mode: Option<String>,
    /// Plan mode, the axis orthogonal to `mode`: file edits always ask.
    pub plan: Option<bool>,
}

impl Default for PermissionsCfg {
    fn default() -> (r: Self)
        ensures
            r.mode is None,
            r.plan is None,
    {
        PermissionsCfg { mode: None, plan: None }
    }
}

/// The resolved `[permissions]`: both axes and a warning to print.
#[derive(Debug)]
pub struct ResolvedPermissions {
    pub mode: PermissionMode,
    pub plan: bool,
    pub warning: Option<String>,
}

/// The word that decides the mode: the environment's, else the file's.
pub open spec fn mode_source(cfg: PermissionsCfg, env: Option<Seq<char>>) -> Option<Seq<char>> {
    match env {
        Some(w) => Some(w),
        None => opt_text(cfg.mode),
    }
}

/// The mode that [`mode_source`] resolves to: `bypass` by default, and `ask`
/// for a word that names none.
pub open spec fn resolved_mode(source: Option<Seq<char>>) -> PermissionMode {
    match source {
        None => PermissionMode::Bypass,
        Some(w) => if is_plan_word(w) {
            PermissionMode::Bypass
        } else {
            match mode_of(w) {
                Some(m) => m,
                None => PermissionMode::Ask,
            }
        },
    }
}

/// The plan overlay: the environment's word, which is on unless it says `0` or
/// `false`, else the file's flag, else whether the mode word was the old `plan`.
pub open spec fn resolved_plan(
    cfg: PermissionsCfg,
    source: Option<Seq<char>>,
    plan_env: Option<Seq<char>>,
) -> bool {
    match plan_env {
        Some(v) => {
            let w = lowered(trimmed(v));
            w != "0"@ && w != "false"@
        },
        None => match cfg.plan {
            Some(p) => p,
            None => source is Some && is_plan_word(source->0),
        },
    }
}

/// The warning for a word that names no mode.
pub open spec fn mode_warning(w: Seq<char>) -> Seq<char> {
    "[permissions].mode = \""@ + w
        + "\" is not a mode (ask | bypass | dontask) — failing closed to \"ask\""@
}

impl PermissionsCfg {
    /// Resolves both axes: environment, then file, then the default. A word
    /// that names no mode fails closed to `ask`, with a warning; the old mode
    /// word `plan` turns the overlay on and leaves the mode at its default. A
    /// bare plan variable in the environment reads as asked for.
    pub fn resolve(&self, env: Option<&str>, plan_env: Option<&str>) -> (r: ResolvedPermissions)
        ensures
            r.mode == resolved_mode(mode_source(*self, opt_str(env))),
            r.plan == resolved_plan(*self, mode_source(*self, opt_str(env)), opt_str(plan_env)),
            opt_text(r.warning) == (match mode_source(*self, opt_str(env)) {
                Some(w) if !is_plan_word(w) && mode_of(w) is None => Some(mode_warning(w)),
                _ => None,
            }),
    {
        let source: Option<&str> = match env {
            Some(w) => Some(w),
            None => as_deref(&self.mode),
        };
        let (mode, plan_from_mode, warning): (PermissionMode, bool, Option<String>) = match source {
            None => (PermissionMode::Bypass, false, None),
            Some(w) => {
                if is_legacy_plan_word(w) {
                    (PermissionMode::Bypass, true, None)
                } else {
                    match parse_mode(w) {
                        Some(m) => (m, false, None),
                        None => {
                            let mut s = "[permissions].mode = \"".to_owned();
                            s.append(w);
                            s.append(
                                "\" is not a mode (ask | bypass | dontask) — failing closed to \"ask\"",
                            );
                            (PermissionMode::Ask, false, Some(s))
                        },
                    }
                }
            },
        };
        let plan: bool = match plan_env {
            Some(v) => {
                let w = ascii_lower(trim(v));
                !same(w.as_str(), "0") && !same(w.as_str(), "false")
            },
            None => match self.plan {
                Some(p) => p,
                None => plan_from_mode,
            },
        };
        ResolvedPermissions { mode, plan, warning }
    }
}

/// A typo never means fewer prompts: a word that names no mode, and is not the
/// old plan word, resolves to `ask`.
pub proof fn typos_fail_closed(cfg: PermissionsCfg, env: Option<Seq<char>>)
    requires
        mode_source(cfg, env) is Some,
        mode_of(mode_source(cfg, env)->0) is None,
        !is_plan_word(mode_source(cfg, env)->0),
    ensures
        resolved_mode(mode_source(cfg, env)) == PermissionMode::Ask,
{
}

/// `[provider]`: the model and its endpoint.
#[derive(Debug)]
pub struct ProviderCfg {
    pub model: Option<String>,
    pub base_url: Option<String>,
    /// `"api_key"` (the default) or `"subscription"`.
    pub auth: Option<String>,
    pub fast_model: Option<String>,
    /// `low`, `medium`, `high`, `xhigh` or `max`.
    pub effort: Option<String>,
    /// A command whose trimmed standard output is the key.
    pub api_key_helper: Option<String>,
    pub api_key_helper_ttl_secs: Option<u64>,
    pub max_tokens: Option<u32>,
    pub cache_breakpoints: Option<bool>,
}

impl Default for ProviderCfg {
    fn default() -> (r: Self)
        ensures
            r.model is None,
            r.base_url is None,
            r.auth is None,
            r.fast_model is None,
            r.effort is None,
            r.api_key_helper is None,
            r.api_key_helper_ttl_secs is None,
            r.max_tokens is None,
            r.cache_breakpoints is None,
    {
        ProviderCfg {
            model: None,
            base_url: None,
            auth: None,
            fast_model: None,
            effort: None,
            api_key_helper: None,
            api_key_helper_ttl_secs: None,
            max_tokens: None,
            cache_breakpoints: None,
        }
    }
}

/// `[context]`: the compaction window.
#[derive(Debug)]
pub struct ContextCfg {
    pub window: Option<u64>,
    pub compaction_reset: Option<bool>,
    pub show_used_pct: Option<bool>,
    pub evict_tokens: Option<u64>,
}

impl Default for ContextCfg {
    fn default() -> (r: Self)
        ensures
            r.window is None,
            r.compaction_reset is None,
            r.show_used_pct is None,
            r.evict_tokens is None,
    {
        ContextCfg { window: None, compaction_reset: None, show_used_pct: None, evict_tokens: None }
    }
}

/// The window that the human set: the environment's where it is a number, else
/// the file's.
pub open spec fn explicit_window(cfg: ContextCfg, env: Option<Seq<char>>) -> Option<nat> {
    let from_env = match env {
        Some(v) => parsed_unsigned(v, u64::MAX as nat),
        None => None,
    };
    match from_env {
        Some(n) => Some(n),
        None => match cfg.window {
            Some(w) => Some(w as nat),
            None => None,
        },
    }
}

/// The warning for a model that the catalog does not know.
pub open spec fn window_warning(model: Seq<char>, fallback: nat) -> Seq<char> {
    "hotl: `"@ + model + "` is not in the model catalog — assuming a "@ + decimal_of(fallback)
        + " token context window. If that is wrong, set `[context] window` in config.toml (or HOTL_CONTEXT_WINDOW); too high overflows the model, too low compacts early."@
}

impl ContextCfg {
    /// Resolves the compaction window, in tokens: the environment, then the
    /// file, then the model's catalogued window, then `fallback` with a warning.
    pub fn resolve_window(
        &self,
        model: &str,
        env: Option<&str>,
        catalogued: Option<u64>,
        fallback: u64,
    ) -> (r: (u64, Option<String>))
        ensures
            match explicit_window(*self, opt_str(env)) {
                Some(w) => r.0 == w && r.1 is None,
                None => match catalogued {
                    Some(w) => r.0 == w && r.1 is None,
                    None => r.0 == fallback && opt_text(r.1) == Some(
                        window_warning(model@, fallback as nat),
                    ),
                },
            },
    {
        let from_env: Option<u64> = match env {
            Some(v) => parse_unsigned(v, u64::MAX),
            None => None,
        };
        if let Some(w) = from_env {
            return (w, None);
        }
        if let Some(w) = self.window {
            return (w, None);
        }
        match catalogued {
            Some(w) => (w, None),
            None => {
                let mut s = "hotl: `".to_owned();
                s.append(model);
                s.append("` is not in the model catalog — assuming a ");
                s.append(decimal(fallback).as_str());
                s.append(
                    " token context window. If that is wrong, set `[context] window` in config.toml (or HOTL_CONTEXT_WINDOW); too high overflows the model, too low compacts early.",
                );
                (fallback, Some(s))
            },
        }
    }

    /// The profile that tokens are estimated by: the model's own where it is
    /// catalogued, else the conservative one, which counts too many rather than
    /// too few.
    pub fn token_profile<T>(&self, catalogued: Option<T>, conservative: T) -> (r: T)
        ensures
            r == (match catalogued {
                Some(p) => p,
                None => conservative,
            }),
    {
        match catalogued {
            Some(p) => p,
            None => conservative,
        }
    }

}

/// `[behavior]`: the console and the turn budget.
#[derive(Debug)]
pub struct BehaviorCfg {
    /// `false` disables the sandbox floor.
    pub sandbox: Option<bool>,
    pub vim_mode: Option<bool>,
    pub mouse: Option<bool>,
    pub copy_on_select: Option<bool>,
    /// Model samples that one prompt may spend; `-1` is unlimited.
    pub max_turns: Option<i64>,
}

impl Default for BehaviorCfg {
    fn default() -> (r: Self)
        ensures
            r.sandbox is None,
            r.vim_mode is None,
            r.mouse is None,
            r.copy_on_select is None,
            r.max_turns is None,
    {
        BehaviorCfg {
            sandbox: None,
            vim_mode: None,
            mouse: None,
            copy_on_select: None,
            max_turns: None,
        }
    }
}

impl BehaviorCfg {
    /// Modal editing, off by default.
    pub fn vim_mode(&self) -> (r: bool)
        ensures
            r == (self.vim_mode == Some(true)),
    {
        match self.vim_mode {
            Some(b) => b,
            None => false,
        }
    }

    /// Mouse capture, on by default.
    pub fn mouse(&self) -> (r: bool)
        ensures
            r == (self.mouse != Some(false)),
    {
        match self.mouse {
            Some(b) => b,
            None => true,
        }
    }

    /// Copy on select, on by default.
    pub fn copy_on_select(&self) -> (r: bool)
        ensures
            r == (self.copy_on_select != Some(false)),
    {
        match self.copy_on_select {
            Some(b) => b,
            None => true,
        }
    }
}

/// `[retention]`: how long sessions are kept.
#[derive(Debug)]
pub struct RetentionCfg {
    pub max_age_days: Option<u64>,
    pub max_sessions: Option<usize>,
}

impl Default for RetentionCfg {
    fn default() -> (r: Self)
        ensures
            r.max_age_days is None,
            r.max_sessions is None,
    {
        RetentionCfg { max_age_days: None, max_sessions: None }
    }
}

/// `[history]`: the console's prompt history.
#[derive(Debug)]
pub struct HistoryCfg {
    pub enabled: Option<bool>,
    pub path: Option<String>,
    pub max_entries: Option<usize>,
    pub max_bytes: Option<u64>,
}

impl Default for HistoryCfg {
    fn default() -> (r: Self)
        ensures
            r.enabled is None,
            r.path is None,
            r.max_entries is None,
            r.max_bytes is None,
    {
        HistoryCfg { enabled: None, path: None, max_entries: None, max_bytes: None }
    }
}

/// Where the history file is: the configured path with `~/` expanded, else
/// `history.jsonl` under the data directory.
pub open spec fn history_path(
    cfg: HistoryCfg,
    data_dir: Seq<char>,
    home: Option<Seq<char>>,
) -> Seq<char> {
    match opt_text(cfg.path) {
        Some(p) => home_expanded(p, home),
        None => joined_path(data_dir, "history.jsonl"@),
    }
}

impl HistoryCfg {
    /// On by default.
    pub fn is_enabled(&self) -> (r: bool)
        ensures
            r == (self.enabled != Some(false)),
    {
        match self.enabled {
            Some(b) => b,
            None => true,
        }
    }

    /// The entry cap, 1000 by default.
    pub fn max_entries(&self) -> (r: usize)
        ensures
            r == (match self.max_entries {
                Some(n) => n,
                None => 1000,
            }),
    {
        match self.max_entries {
            Some(n) => n,
            None => 1000,
        }
    }

    /// The byte cap, 2 MiB by default.
    pub fn max_bytes(&self) -> (r: u64)
        ensures
            r == (match self.max_bytes {
                Some(n) => n,
                None => 2_097_152,
            }),
    {
        match self.max_bytes {
            Some(n) => n,
            None => 2_097_152,
        }
    }

    /// The resolved history file.
    pub fn resolved_path(&self, data_dir: &str, home: Option<&str>) -> (r: String)
        ensures
            r@ == history_path(*self, data_dir@, opt_str(home)),
    {
        match &self.path {
            Some(p) => expand_home(p.as_str(), home),
            None => join(data_dir, "history.jsonl"),
        }
    }
}

/// `[concurrency]`: resource governors and thread pools.
#[derive(Debug)]
pub struct ConcurrencyCfg {
    pub agents: Option<usize>,
    pub requests: Option<usize>,
    pub subprocs: Option<usize>,
    pub worker_threads: Option<usize>,
    pub blocking_threads: Option<usize>,
}

impl Default for ConcurrencyCfg {
    fn default() -> (r: Self)
        ensures
            r.agents is None,
            r.requests is None,
            r.subprocs is None,
            r.worker_threads is None,
            r.blocking_threads is None,
    {
        ConcurrencyCfg {
            agents: None,
            requests: None,
            subprocs: None,
            worker_threads: None,
            blocking_threads: None,
        }
    }
}

/// `[network]`: egress for sandboxed commands.
#[derive(Debug)]
pub struct NetworkCfg {
    /// `"open"` (the default), `"off"` or `"allowlist"`.
    pub egress: Option<String>,
    /// Hosts reachable in allowlist mode.
    pub allow: Vec<String>,
    /// Whether the list starts from the shipped hosts, on by default.
    pub defaults: Option<bool>,
}

impl Default for NetworkCfg {
    fn default() -> (r: Self)
        ensures
            r.egress is None,
            r.allow@.len() == 0,
            r.defaults is None,
    {
        NetworkCfg { egress: None, allow: Vec::new(), defaults: None }
    }
}

/// What sandboxed commands may reach.
#[derive(Debug, PartialEq, Eq)]
pub enum EgressPolicy {
    Open,
    Off,
    Allowlist(Vec<String>),
}

/// The view of an [`EgressPolicy`].
#[verifier::ext_equal]
pub enum EgressPolicyV {
    Open,
    Off,
    Allowlist(Seq<Seq<char>>),
}

impl View for EgressPolicy {
    type V = EgressPolicyV;

    open spec fn view(&self) -> EgressPolicyV {
        match *self {
            EgressPolicy::Open => EgressPolicyV::Open,
            EgressPolicy::Off => EgressPolicyV::Off,
            EgressPolicy::Allowlist(v) => EgressPolicyV::Allowlist(texts(v@)),
        }
    }
}

/// A host entry beside its normal form, which entries are compared by.
#[derive(Debug)]
pub struct Host {
    pub entry: String,
    pub normal: String,
}

/// The views of host entries.
pub open spec fn hosts(v: Seq<Host>) -> Seq<(Seq<char>, Seq<char>)> {
    Seq::new(v.len(), |i: int| (v[i].entry@, v[i].normal@))
}

/// Whether some earlier entry has the normal form of entry `n`.
pub open spec fn host_seen(all: Seq<(Seq<char>, Seq<char>)>, n: int) -> bool {
    exists|k: int| 0 <= k < n && (#[trigger] all[k]).1 == all[n].1
}

/// The first `n` entries without those whose normal form came before.
pub open spec fn distinct_hosts(all: Seq<(Seq<char>, Seq<char>)>, n: nat) -> Seq<Seq<char>>
    decreases n,
{
    if n == 0 {
        Seq::empty()
    } else {
        let before = distinct_hosts(all, (n - 1) as nat);
        if host_seen(all, n - 1) {
            before
        } else {
            before.push(all[n - 1].0)
        }
    }
}

/// The entries that the allowlist is made from: the shipped ones, unless
/// switched off, and then the owner's.
pub open spec fn allow_entries(
    cfg: NetworkCfg,
    starter: Seq<(Seq<char>, Seq<char>)>,
    own: Seq<(Seq<char>, Seq<char>)>,
) -> Seq<(Seq<char>, Seq<char>)> {
    if cfg.defaults != Some(false) {
        starter + own
    } else {
        own
    }
}

/// The hosts that the allowlist lets through.
pub open spec fn allowed_hosts(
    cfg: NetworkCfg,
    starter: Seq<(Seq<char>, Seq<char>)>,
    own: Seq<(Seq<char>, Seq<char>)>,
) -> Seq<Seq<char>> {
    let all = allow_entries(cfg, starter, own);
    distinct_hosts(all, all.len())
}

/// The policy that `[network]` sets, and the warning on a word that names
/// none: an unknown mode fails closed.
pub open spec fn policy_of(
    cfg: NetworkCfg,
    starter: Seq<(Seq<char>, Seq<char>)>,
    own: Seq<(Seq<char>, Seq<char>)>,
) -> (EgressPolicyV, Option<Seq<char>>) {
    match opt_text(cfg.egress) {
        None => (EgressPolicyV::Open, None),
        Some(m) => if m == "open"@ {
            (EgressPolicyV::Open, None)
        } else if m == "off"@ {
            (EgressPolicyV::Off, None)
        } else if m == "allowlist"@ {
            (EgressPolicyV::Allowlist(allowed_hosts(cfg, starter, own)), None)
        } else {
            (EgressPolicyV::Off, Some(egress_warning(m)))
        },
    }
}

/// The owner's entries, each beside its normal form.
pub open spec fn own_hosts(cfg: NetworkCfg, normals: Seq<String>) -> Seq<(Seq<char>, Seq<char>)> {
    Seq::new(cfg.allow@.len(), |i: int| (cfg.allow@[i]@, normals[i]@))
}

fn push_distinct(
    out: &mut Vec<String>,
    entry: &str,
    normal: &str,
    seen: &mut Vec<String>,
    Ghost(all): Ghost<Seq<(Seq<char>, Seq<char>)>>,
    Ghost(n): Ghost<nat>,
)
    requires
        n < all.len(),
        all[n as int] == (entry@, normal@),
        texts(old(out)@) == distinct_hosts(all, n),
        old(seen)@.len() == n,
        forall|k: int| 0 <= k < n ==> (#[trigger] old(seen)@[k])@ == all[k].1,
    ensures
        texts(final(out)@) == distinct_hosts(all, n + 1),
        final(seen)@.len() == n + 1,
        forall|k: int| 0 <= k < n + 1 ==> (#[trigger] final(seen)@[k])@ == all[k].1,
{
    let mut known = false;
    let mut k: usize = 0;
    while k < seen.len()
        invariant
            0 <= k <= seen.len(),
            seen@.len() == n,
            n < all.len(),
            all[n as int] == (entry@, normal@),
            forall|j: int| 0 <= j < n ==> (#[trigger] seen@[j])@ == all[j].1,
            known == (exists|j: int| 0 <= j < k && (#[trigger] all[j]).1 == normal@),
        decreases seen.len() - k,
    {
        assert(seen@[k as int]@ == all[k as int].1);
        if same(seen[k].as_str(), normal) {
            known = true;
        }
        k = k + 1;
    }
    assert(known == host_seen(all, n as int));
    let ghost before = texts(out@);
    if !known {
        out.push(entry.to_owned());
        assert(texts(out@) =~= before.push(entry@));
    }
    seen.push(normal.to_owned());
}

impl NetworkCfg {
    /// The allowlist that is enforced: the shipped hosts (unless switched off)
    /// and then the owner's, without repetitions by normal form. `normals` are
    /// the normal forms of `allow`, entry by entry.
    pub fn effective_allow(&self, starter: &[Host], normals: &[String]) -> (r: Vec<String>)
        requires
            normals@.len() == self.allow@.len(),
        ensures
            texts(r@) == allowed_hosts(*self, hosts(starter@), own_hosts(*self, normals@)),
    {
        let mut out: Vec<String> = Vec::new();
        let mut seen: Vec<String> = Vec::new();
        let ghost all = allow_entries(*self, hosts(starter@), own_hosts(*self, normals@));
        let ghost mut n: nat = 0;
        assert(texts(out@) =~= Seq::empty());
        let with_starter: bool = match self.defaults {
            Some(b) => b,
            None => true,
        };
        if with_starter {
            let mut i: usize = 0;
            while i < starter.len()
                invariant
                    0 <= i <= starter.len(),
                    n == i,
                    all == hosts(starter@) + own_hosts(*self, normals@),
                    texts(out@) == distinct_hosts(all, n),
                    seen@.len() == n,
                    forall|k: int| 0 <= k < n ==> (#[trigger] seen@[k])@ == all[k].1,
                decreases starter.len() - i,
            {
                push_distinct(
                    &mut out,
                    starter[i].entry.as_str(),
                    starter[i].normal.as_str(),
                    &mut seen,
                    Ghost(all),
                    Ghost(n),
                );
                proof {
                    n = n + 1;
                }
                i = i + 1;
            }
        }
        let ghost base = n;
        let mut i: usize = 0;
        while i < self.allow.len()
            invariant
                0 <= i <= self.allow.len(),
                normals@.len() == self.allow@.len(),
                n == base + i,
                all.len() == base + self.allow@.len(),
                forall|k: int|
                    0 <= k < self.allow@.len() ==> #[trigger] all[base + k] == (
                        self.allow@[k]@,
                        normals@[k]@,
                    ),
                texts(out@) == distinct_hosts(all, n),
                seen@.len() == n,
                forall|k: int| 0 <= k < n ==> (#[trigger] seen@[k])@ == all[k].1,
            decreases self.allow.len() - i,
        {
            assert(all[base + i] == (self.allow@[i as int]@, normals@[i as int]@));
            push_distinct(
                &mut out,
                self.allow[i].as_str(),
                normals[i].as_str(),
                &mut seen,
                Ghost(all),
                Ghost(n),
            );
            proof {
                n = n + 1;
            }
            i = i + 1;
        }
        out
    }

    /// How many of the entries come from the shipped list.
    pub fn starter_count(&self, starter: usize) -> (r: usize)
        ensures
            r == (if self.defaults != Some(false) {
                starter
            } else {
                0
            }),
    {
        match self.defaults {
            Some(false) => 0,
            _ => starter,
        }
    }

    /// Resolves the egress policy. An unknown mode fails closed to `off`, with
    /// a warning.
    pub fn egress_policy(&self, starter: &[Host], normals: &[String]) -> (r: (
        EgressPolicy,
        Option<String>,
    ))
        requires
            normals@.len() == self.allow@.len(),
        ensures
            (r.0@, opt_text(r.1)) == policy_of(
                *self,
                hosts(starter@),
                own_hosts(*self, normals@),
            ),
    {
        match &self.egress {
            None => (EgressPolicy::Open, None),
            Some(m) => {
                let m = m.as_str();
                if same(m, "open") {
                    (EgressPolicy::Open, None)
                } else if same(m, "off") {
                    (EgressPolicy::Off, None)
                } else if same(m, "allowlist") {
                    (EgressPolicy::Allowlist(self.effective_allow(starter, normals)), None)
                } else {
                    let mut w = "config.toml [network].egress = \"".to_owned();
                    w.append(m);
                    w.append(
                        "\" is not a mode (open | off | allowlist) — failing closed to \"off\"",
                    );
                    (EgressPolicy::Off, Some(w))
                }
            },
        }
    }
}

/// The warning for a word that names no egress mode.
pub open spec fn egress_warning(m: Seq<char>) -> Seq<char> {
    "config.toml [network].egress = \""@ + m
        + "\" is not a mode (open | off | allowlist) — failing closed to \"off\""@
}

/// The whole configuration. The document's text is kept for the sections that
/// go to loaders of their own.
#[derive(Debug)]
pub struct Config {
    pub provider: ProviderCfg,
    pub context: ContextCfg,
    pub behavior: BehaviorCfg,
    pub retention: RetentionCfg,
    pub history: HistoryCfg,
    pub network: NetworkCfg,
    pub permissions: PermissionsCfg,
    pub skills: SkillsCfg,
    pub plugins: PluginsCfg,
    pub agents: AgentsCfg,
    pub workflows: WorkflowsCfg,
    pub concurrency: ConcurrencyCfg,
    pub sandbox: SandboxCfg,
    /// The document's text, where there is a document.
    pub raw: Option<String>,
}

/// The typed sections of a configuration.
#[derive(Debug)]
pub struct Settings {
    pub provider: ProviderCfg,
    pub context: ContextCfg,
    pub behavior: BehaviorCfg,
    pub retention: RetentionCfg,
    pub history: HistoryCfg,
    pub network: NetworkCfg,
    pub permissions: PermissionsCfg,
    pub skills: SkillsCfg,
    pub plugins: PluginsCfg,
    pub agents: AgentsCfg,
    pub workflows: WorkflowsCfg,
    pub concurrency: ConcurrencyCfg,
    pub sandbox: SandboxCfg,
}

/// Every section is as it is without a file.
pub open spec fn is_default(s: Settings) -> bool {
    &&& s.provider.model is None
    &&& s.provider.base_url is None
    &&& s.provider.auth is None
    &&& s.provider.fast_model is None
    &&& s.provider.effort is None
    &&& s.provider.api_key_helper is None
    &&& s.provider.api_key_helper_ttl_secs is None
    &&& s.provider.max_tokens is None
    &&& s.provider.cache_breakpoints is None
    &&& s.context.window is None
    &&& s.context.compaction_reset is None
    &&& s.context.show_used_pct is None
    &&& s.context.evict_tokens is None
    &&& s.behavior.sandbox is None
    &&& s.behavior.vim_mode is None
    &&& s.behavior.mouse is None
    &&& s.behavior.copy_on_select is None
    &&& s.behavior.max_turns is None
    &&& s.retention.max_age_days is None
    &&& s.retention.max_sessions is None
    &&& s.history.enabled is None
    &&& s.history.path is None
    &&& s.history.max_entries is None
    &&& s.history.max_bytes is None
    &&& s.network.egress is None
    &&& s.network.allow@.len() == 0
    &&& s.network.defaults is None
    &&& s.permissions.mode is None
    &&& s.permissions.plan is None
    &&& s.skills.claude is None
    &&& s.skills.marketplaces@.len() == 0
    &&& s.plugins.sources@.len() == 0
    &&& s.agents.claude is None
    &&& s.agents.isolation is None
    &&& s.workflows.concurrency is None
    &&& s.workflows.max_agents is None
    &&& s.concurrency.agents is None
    &&& s.concurrency.requests is None
    &&& s.concurrency.subprocs is None
    &&& s.concurrency.worker_threads is None
    &&& s.concurrency.blocking_threads is None
    &&& s.sandbox.writable@.len() == 0
    &&& s.sandbox.readable@.len() == 0
    &&& s.sandbox.file_tools is None
}

impl Default for Settings {
    fn default() -> (r: Settings)
        ensures
            is_default(r),
    {
        Settings {
            provider: ProviderCfg::default(),
            context: ContextCfg::default(),
            behavior: BehaviorCfg::default(),
            retention: RetentionCfg::default(),
            history: HistoryCfg::default(),
            network: NetworkCfg::default(),
            permissions: PermissionsCfg::default(),
            skills: SkillsCfg::default(),
            plugins: PluginsCfg::default(),
            agents: AgentsCfg::default(),
            workflows: WorkflowsCfg::default(),
            concurrency: ConcurrencyCfg::default(),
            sandbox: SandboxCfg::default(),
        }
    }
}

/// The warning on a file that cannot be read as a configuration.
pub open spec fn ignored_warning(e: Seq<char>) -> Seq<char> {
    "config.toml ignored (parse error): "@ + e
}

/// Those of the first `n` pairs that are marked.
pub open spec fn marked(picks: Seq<(Seq<char>, Seq<char>)>, marks: Seq<bool>, n: nat) -> Seq<
    (Seq<char>, Seq<char>),
>
    decreases n,
{
    if n == 0 {
        Seq::empty()
    } else if marks[n - 1] {
        marked(picks, marks, (n - 1) as nat).push(picks[n - 1])
    } else {
        marked(picks, marks, (n - 1) as nat)
    }
}

/// Which of the pairs have their first key in the document.
pub open spec fn present_marks(text: Seq<char>, picks: Seq<(Seq<char>, Seq<char>)>) -> Seq<bool> {
    Seq::new(picks.len(), |i: int| toml_holds(text, picks[i].0))
}

/// The pairs whose first key the document has.
pub open spec fn present(text: Seq<char>, picks: Seq<(Seq<char>, Seq<char>)>) -> Seq<
    (Seq<char>, Seq<char>),
> {
    marked(picks, present_marks(text, picks), picks.len())
}

proof fn picked_are_held(text: Seq<char>, picks: Seq<(Seq<char>, Seq<char>)>, k: int, n: nat)
    requires
        n <= picks.len(),
        0 <= k < marked(picks, present_marks(text, picks), n).len(),
    ensures
        toml_holds(text, marked(picks, present_marks(text, picks), n)[k].0),
    decreases n,
{
    let shorter = marked(picks, present_marks(text, picks), (n - 1) as nat);
    if k < shorter.len() {
        picked_are_held(text, picks, k, (n - 1) as nat);
    }
}

/// Those of the pairs that are marked.
pub fn pick<'a>(picks: &[(&'a str, &'a str)], marks: &[bool]) -> (r: Vec<(&'a str, &'a str)>)
    requires
        marks@.len() == picks@.len(),
    ensures
        picks_view(r@) == marked(picks_view(picks@), marks@, picks@.len()),
{
    let ghost all = picks_view(picks@);
    let mut found: Vec<(&'a str, &'a str)> = Vec::new();
    let mut i: usize = 0;
    assert(picks_view(found@) =~= Seq::empty());
    while i < picks.len()
        invariant
            0 <= i <= picks.len(),
            marks@.len() == picks@.len(),
            all == picks_view(picks@),
            picks_view(found@) == marked(all, marks@, i as nat),
        decreases picks.len() - i,
    {
        if marks[i] {
            let ghost before = picks_view(found@);
            let (from, to) = picks[i];
            assert(all[i as int] == (from@, to@));
            found.push((from, to));
            assert(picks_view(found@) =~= before.push((from@, to@)));
        }
        i = i + 1;
    }
    found
}

/// Each of the parts can be written anew.
pub open spec fn all_writable(text: Seq<char>, parts: Seq<(Seq<char>, Seq<char>)>) -> bool {
    forall|i: int| 0 <= i < parts.len() ==> writable(text, (#[trigger] parts[i]).0)
}

/// A document of its own with those parts that the configuration has, each
/// under its new key; nothing where it has none of them, or where one of them
/// cannot be written anew.
pub open spec fn section_of(
    raw: Option<Seq<char>>,
    picks: Seq<(Seq<char>, Seq<char>)>,
) -> Option<Seq<char>> {
    match raw {
        None => None,
        Some(text) => if present(text, picks).len() == 0 || !all_writable(text, present(text, picks)) {
            None
        } else {
            toml_lifted(text, present(text, picks))
        },
    }
}

/// What stands under a key of the configuration, as a document of its own;
/// nothing where it cannot be written anew.
pub open spec fn inner_of(raw: Option<Seq<char>>, key: Seq<char>) -> Option<Seq<char>> {
    match raw {
        None => None,
        Some(text) => if toml_holds(text, key) && writable(text, key) {
            toml_inner(text, key)
        } else {
            None
        },
    }
}

fn settled(settings: Settings, raw: Option<String>) -> (r: Config)
    ensures
        r.settings() == settings,
        r.document() == opt_text(raw),
{
    Config {
        provider: settings.provider,
        context: settings.context,
        behavior: settings.behavior,
        retention: settings.retention,
        history: settings.history,
        network: settings.network,
        permissions: settings.permissions,
        skills: settings.skills,
        plugins: settings.plugins,
        agents: settings.agents,
        workflows: settings.workflows,
        concurrency: settings.concurrency,
        sandbox: settings.sandbox,
        raw,
    }
}

fn ignored(e: &str) -> (r: String)
    ensures
        r@ == ignored_warning(e@),
{
    let mut s = "config.toml ignored (parse error): ".to_owned();
    s.append(e);
    s
}

impl Config {
    /// The typed sections.
    pub open spec fn settings(self) -> Settings {
        Settings {
            provider: self.provider,
            context: self.context,
            behavior: self.behavior,
            retention: self.retention,
            history: self.history,
            network: self.network,
            permissions: self.permissions,
            skills: self.skills,
            plugins: self.plugins,
            agents: self.agents,
            workflows: self.workflows,
            concurrency: self.concurrency,
            sandbox: self.sandbox,
        }
    }

    /// The document's text, where there is a document.
    pub open spec fn document(self) -> Option<Seq<char>> {
        opt_text(self.raw)
    }

    /// The configuration of a text, given what the reader has against it and what
    /// its typed sections say, and the warning where something is ignored.
    pub fn settle(
        text: &str,
        problem: Option<String>,
        typed: Result<Settings, String>,
    ) -> (r: (Config, Option<String>))
        ensures
            match opt_text(problem) {
                Some(e) => is_default(r.0.settings()) && r.0.document() is None && opt_text(r.1)
                    == Some(ignored_warning(e)),
                None => r.0.document() == Some(text@) && match typed {
                    Ok(s) => r.0.settings() == s && r.1 is None,
                    Err(e) => is_default(r.0.settings()) && opt_text(r.1) == Some(
                        ignored_warning(e@),
                    ),
                },
            },
    {
        if let Some(e) = problem {
            return (settled(Settings::default(), None), Some(ignored(e.as_str())));
        }
        match typed {
            Ok(s) => (settled(s, Some(text.to_owned())), None),
            Err(e) => (
                settled(Settings::default(), Some(text.to_owned())),
                Some(ignored(e.as_str())),
            ),
        }
    }

    /// The configuration of a file's text. A malformed file warns and yields
    /// the defaults: one that is no document, or whose typed sections, read
    /// from the same text, do not fit.
    pub fn load(text: Option<&str>, typed: Result<Settings, String>) -> (r: (
        Config,
        Option<String>,
    ))
        ensures
            match opt_str(text) {
                None => is_default(r.0.settings()) && r.0.document() is None && r.1 is None,
                Some(t) => match toml_problem(t) {
                    Some(e) => is_default(r.0.settings()) && r.0.document() is None && opt_text(r.1)
                        == Some(ignored_warning(e)),
                    None => r.0.document() == Some(t) && match typed {
                        Ok(s) => r.0.settings() == s && r.1 is None,
                        Err(e) => is_default(r.0.settings()) && opt_text(r.1) == Some(
                            ignored_warning(e@),
                        ),
                    },
                },
            },
    {
        match text {
            Some(t) => Self::settle(t, problem(t), typed),
            None => (settled(Settings::default(), None), None),
        }
    }

    fn section(&self, picks: &[(&str, &str)]) -> (r: Option<String>)
        ensures
            opt_text(r) == section_of(self.document(), picks_view(picks@)),
    {
        let text = match &self.raw {
            Some(t) => t.as_str(),
            None => {
                return None;
            },
        };
        let ghost all = picks_view(picks@);
        let mut marks: Vec<bool> = Vec::new();
        let mut i: usize = 0;
        while i < picks.len()
            invariant
                0 <= i <= picks.len(),
                all == picks_view(picks@),
                marks@ == present_marks(text@, all).take(i as int),
            decreases picks.len() - i,
        {
            assert(all[i as int] == (picks@[i as int].0@, picks@[i as int].1@));
            marks.push(holds(text, picks[i].0));
            i = i + 1;
        }
        assert(marks@ =~= present_marks(text@, all));
        let found = pick(picks, marks.as_slice());
        assert(picks_view(found@).len() == found@.len());
        if found.len() == 0 {
            return None;
        }
        let mut k: usize = 0;
        while k < found.len()
            invariant
                0 <= k <= found.len(),
                self.document() == Some(text@),
                picks_view(found@) == present(text@, picks_view(picks@)),
                all_writable(text@, picks_view(found@).take(k as int)),
            decreases found.len() - k,
        {
            let ghost parts = picks_view(found@);
            assert(parts[k as int] == (found@[k as int].0@, found@[k as int].1@));
            if !is_writable(text, found[k].0) {
                assert(!all_writable(text@, parts));
                return None;
            }
            k = k + 1;
            assert forall|i: int| 0 <= i < k implies writable(
                text@,
                (#[trigger] parts.take(k as int)[i]).0,
            ) by {
                if i < k - 1 {
                    assert(parts.take(k - 1)[i] == parts.take(k as int)[i]);
                }
            }
        }
        assert(picks_view(found@).take(k as int) =~= picks_view(found@));
        assert forall|k: int| 0 <= k < found@.len() implies toml_holds(
            text@,
            (#[trigger] found@[k]).0@,
        ) && writable(text@, found@[k].0@) by {
            picked_are_held(text@, all, k, all.len());
            assert(picks_view(found@)[k] == (found@[k].0@, found@[k].1@));
        }
        lifted(text, found.as_slice())
    }

    fn contents(&self, key: &str) -> (r: Option<String>)
        ensures
            opt_text(r) == inner_of(self.document(), key@),
    {
        match &self.raw {
            Some(t) => {
                if holds(t.as_str(), key) && is_writable(t.as_str(), key) {
                    inner(t.as_str(), key)
                } else {
                    None
                }
            },
            None => None,
        }
    }

    /// The `[[allow]]` and `[[deny]]` rules as one document.
    pub fn rules_toml(&self) -> (r: Option<String>)
        ensures
            opt_text(r) == section_of(
                self.document(),
                seq![("allow"@, "allow"@), ("deny"@, "deny"@)],
            ),
    {
        let picks = [("allow", "allow"), ("deny", "deny")];
        assert(picks_view(picks@) =~= seq![("allow"@, "allow"@), ("deny"@, "deny"@)]);
        self.section(&picks)
    }

    /// The `[[mcp]]` servers as a document of `[[server]]` tables.
    pub fn mcp_toml(&self) -> (r: Option<String>)
        ensures
            opt_text(r) == section_of(self.document(), seq![("mcp"@, "server"@)]),
    {
        let picks = [("mcp", "server")];
        assert(picks_view(picks@) =~= seq![("mcp"@, "server"@)]);
        self.section(&picks)
    }

    /// The `[[retrieval]]` backends as a document of `[[backend]]` tables.
    pub fn retrieval_toml(&self) -> (r: Option<String>)
        ensures
            opt_text(r) == section_of(self.document(), seq![("retrieval"@, "backend"@)]),
    {
        let picks = [("retrieval", "backend")];
        assert(picks_view(picks@) =~= seq![("retrieval"@, "backend"@)]);
        self.section(&picks)
    }

    /// The contents of `[minify]`.
    pub fn minify_toml(&self) -> (r: Option<String>)
        ensures
            opt_text(r) == inner_of(self.document(), "minify"@),
    {
        self.contents("minify")
    }

    /// The contents of `[web]`.
    pub fn web_toml(&self) -> (r: Option<String>)
        ensures
            opt_text(r) == inner_of(self.document(), "web"@),
    {
        self.contents("web")
    }

    /// The `[[hook]]` and `[diagnostics]` sections as one document.
    pub fn hooks_toml(&self) -> (r: Option<String>)
        ensures
            opt_text(r) == section_of(
                self.document(),
                seq![("hook"@, "hook"@), ("diagnostics"@, "diagnostics"@)],
            ),
    {
        let picks = [("hook", "hook"), ("diagnostics", "diagnostics")];
        assert(picks_view(picks@) =~= seq![
            ("hook"@, "hook"@),
            ("diagnostics"@, "diagnostics"@),
        ]);
        self.section(&picks)
    }
}

/// A section of `config.toml` wins over the standalone file of the same
/// meaning, which is read where `config.toml` does not define the section.
pub fn section_or_file(section: Option<String>, file: Option<String>) -> (r: Option<String>)
    ensures
        r == (if section is Some {
            section
        } else {
            file
        }),
{
    match section {
        Some(s) => Some(s),
        None => file,
    }
}

proof fn marked_are_kept(
    picks: Seq<(Seq<char>, Seq<char>)>,
    marks: Seq<bool>,
    i: int,
    n: nat,
)
    requires
        0 <= i < n <= picks.len(),
        marks[i],
    ensures
        marked(picks, marks, n).contains(picks[i]),
    decreases n,
{
    let shorter = marked(picks, marks, (n - 1) as nat);
    let all = marked(picks, marks, n);
    if i == n - 1 {
        assert(all.last() == picks[i]);
    } else {
        marked_are_kept(picks, marks, i, (n - 1) as nat);
        let k = choose|k: int| 0 <= k < shorter.len() && shorter[k] == picks[i];
        assert(all[k] == picks[i]);
    }
}

/// Every part that the document has is lifted out of it: no deny rule is
/// dropped for want of an allow rule, nor the other way round. The parts are
/// those that can be written anew.
pub proof fn sections_are_lifted_whole(
    text: Seq<char>,
    picks: Seq<(Seq<char>, Seq<char>)>,
    i: int,
)
    requires
        0 <= i < picks.len(),
        toml_holds(text, picks[i].0),
        all_writable(text, present(text, picks)),
    ensures
        present(text, picks).contains(picks[i]),
        section_of(Some(text), picks) == toml_lifted(text, present(text, picks)),
{
    marked_are_kept(picks, present_marks(text, picks), i, picks.len());
}

proof fn earlier_kept(all: Seq<(Seq<char>, Seq<char>)>, n: nat, m: nat, h: Seq<char>)
    requires
        n <= m <= all.len(),
        distinct_hosts(all, n).contains(h),
    ensures
        distinct_hosts(all, m).contains(h),
    decreases m,
{
    if n < m {
        earlier_kept(all, n, (m - 1) as nat, h);
        let shorter = distinct_hosts(all, (m - 1) as nat);
        let k = choose|k: int| 0 <= k < shorter.len() && shorter[k] == h;
        assert(distinct_hosts(all, m)[k] == h);
    }
}

/// Every allowed host is either on the list or was seen before it in another
/// spelling: none is dropped otherwise.
pub proof fn allowed_hosts_are_kept(all: Seq<(Seq<char>, Seq<char>)>, i: int)
    requires
        0 <= i < all.len(),
    ensures
        host_seen(all, i) || distinct_hosts(all, all.len()).contains(all[i].0),
{
    if !host_seen(all, i) {
        let d = distinct_hosts(all, (i + 1) as nat);
        assert(d.last() == all[i].0);
        assert(d.contains(all[i].0));
        earlier_kept(all, (i + 1) as nat, all.len(), all[i].0);
    }
}

proof fn mode_words_differ()
    ensures
        "ask"@ != "bypass"@,
        "ask"@ != "auto"@,
        "ask"@ != "dontask"@,
        "ask"@ != "plan"@,
        "bypass"@ != "auto"@,
        "bypass"@ != "dontask"@,
        "bypass"@ != "plan"@,
        "auto"@ != "dontask"@,
        "auto"@ != "plan"@,
        "dontask"@ != "plan"@,
        "open"@ != "off"@,
        "open"@ != "allowlist"@,
        "off"@ != "allowlist"@,
        "0"@ != "false"@,
{
    reveal_strlit("ask");
    reveal_strlit("bypass");
    reveal_strlit("auto");
    reveal_strlit("dontask");
    reveal_strlit("plan");
    reveal_strlit("open");
    reveal_strlit("off");
    reveal_strlit("allowlist");
    reveal_strlit("0");
    reveal_strlit("false");
    assert("ask"@.len() != "bypass"@.len());
    assert("ask"@.len() != "auto"@.len());
    assert("ask"@.len() != "dontask"@.len());
    assert("ask"@.len() != "plan"@.len());
    assert("bypass"@.len() != "auto"@.len());
    assert("bypass"@.len() != "dontask"@.len());
    assert("bypass"@.len() != "plan"@.len());
    assert("auto"@.len() != "dontask"@.len());
    assert("auto"@[0] != "plan"@[0]);
    assert("dontask"@.len() != "plan"@.len());
    assert("open"@.len() != "off"@.len());
    assert("open"@.len() != "allowlist"@.len());
    assert("off"@.len() != "allowlist"@.len());
    assert("0"@.len() != "false"@.len());
}

/// Every mode has its word, whatever the case, and `auto` means `bypass`; no other
/// word means a mode, and `plan` means none.
pub proof fn modes_have_their_words(word: Seq<char>)
    ensures
        mode_of(word) == Some(PermissionMode::Ask) <==> lowered(word) == "ask"@,
        mode_of(word) == Some(PermissionMode::Bypass) <==> lowered(word) == "bypass"@ || lowered(
            word,
        ) == "auto"@,
        mode_of(word) == Some(PermissionMode::DontAsk) <==> lowered(word) == "dontask"@,
        is_plan_word(word) <==> lowered(word) == "plan"@,
        is_plan_word(word) ==> mode_of(word) is None,
        mode_of(word) matches Some(m) ==> m.word() == lowered(word) || lowered(word) == "auto"@,
{
    mode_words_differ();
}

/// A build that enforces asking never bypasses, and changes no other mode; any
/// other build changes none.
pub proof fn enforcing_forbids_bypass(m: PermissionMode)
    ensures
        m.enforced(true) != PermissionMode::Bypass,
        m != PermissionMode::Bypass ==> m.enforced(true) == m,
        m == PermissionMode::Bypass ==> m.enforced(true) == PermissionMode::Ask,
        m.enforced(false) == m,
{
}

/// The environment's mode comes before the file's, and the file's before the
/// default, which is `bypass`; a word that names a mode is that mode.
pub proof fn the_nearest_mode_wins(cfg: PermissionsCfg, word: Seq<char>)
    ensures
        mode_source(cfg, Some(word)) == Some(word),
        mode_source(cfg, None) == opt_text(cfg.mode),
        resolved_mode(None) == PermissionMode::Bypass,
        lowered(word) == "ask"@ ==> resolved_mode(Some(word)) == PermissionMode::Ask,
        lowered(word) == "dontask"@ ==> resolved_mode(Some(word)) == PermissionMode::DontAsk,
        lowered(word) == "bypass"@ || lowered(word) == "auto"@ || lowered(word) == "plan"@
            ==> resolved_mode(Some(word)) == PermissionMode::Bypass,
{
    mode_words_differ();
}

/// Planning is on where the environment asks for it by anything but `0` and
/// `false`, else where the file says so, else where the mode's word is the old
/// one for it.
pub proof fn the_nearest_plan_wins(cfg: PermissionsCfg, source: Option<Seq<char>>, v: Seq<char>)
    ensures
        resolved_plan(cfg, source, Some(v)) <==> lowered(trimmed(v)) != "0"@ && lowered(trimmed(v))
            != "false"@,
        cfg.plan matches Some(p) ==> resolved_plan(cfg, source, None) == p,
        cfg.plan is None ==> (resolved_plan(cfg, source, None) <==> source is Some && lowered(
            source->0,
        ) == "plan"@),
{
}

/// A window that the environment gives as a number comes before the file's; text
/// that is no number there is passed over.
pub proof fn the_nearest_window_wins(cfg: ContextCfg, n: u64, text: Seq<char>)
    ensures
        explicit_window(cfg, Some(decimal_of(n as nat))) == Some(n as nat),
        parsed_unsigned(text, u64::MAX as nat) is None ==> explicit_window(cfg, Some(text))
            == explicit_window(cfg, None),
        cfg.window matches Some(w) ==> explicit_window(cfg, None) == Some(w as nat),
        cfg.window is None ==> explicit_window(cfg, None) is None,
{
    crate::text::numerals_read_back(n as nat, u64::MAX as nat, 0);
}

/// Egress is open where nothing is said or `open`, off where `off` is said, and
/// kept to the list where `allowlist` is; any other word turns it off and is
/// named in the warning.
pub proof fn egress_is_what_is_said(
    cfg: NetworkCfg,
    starter: Seq<(Seq<char>, Seq<char>)>,
    own: Seq<(Seq<char>, Seq<char>)>,
)
    ensures
        ({
            let said = opt_text(cfg.egress);
            let (policy, warning) = policy_of(cfg, starter, own);
            &&& said is None || said == Some("open"@) ==> policy == EgressPolicyV::Open && warning
                is None
            &&& said == Some("off"@) ==> policy == EgressPolicyV::Off && warning is None
            &&& said == Some("allowlist"@) ==> policy == EgressPolicyV::Allowlist(
                allowed_hosts(cfg, starter, own),
            ) && warning is None
            &&& said is Some && said != Some("open"@) && said != Some("off"@) && said != Some(
                "allowlist"@,
            ) ==> policy == EgressPolicyV::Off && (warning matches Some(w) && crate::text::occurs(
                w,
                said->0,
            ))
        }),
{
    mode_words_differ();
    if let Some(m) = opt_text(cfg.egress) {
        let w = egress_warning(m);
        let k = "config.toml [network].egress = \""@.len() as int;
        assert(w.subrange(k, k + m.len()) =~= m);
        assert(crate::text::occurs_at(w, m, k));
    }
}

/// The list holds the built-in hosts, unless they are switched off, and always the
/// owner's own.
pub proof fn the_owners_hosts_are_allowed(
    cfg: NetworkCfg,
    starter: Seq<(Seq<char>, Seq<char>)>,
    own: Seq<(Seq<char>, Seq<char>)>,
)
    ensures
        cfg.defaults == Some(false) ==> allow_entries(cfg, starter, own) == own,
        cfg.defaults != Some(false) ==> allow_entries(cfg, starter, own) == starter + own,
{
}

/// Every host on the list stands there for an entry that nothing before it spells
/// otherwise, in the order of the entries; so the list has as many hosts as there
/// are different ones.
pub proof fn hosts_are_listed_once(all: Seq<(Seq<char>, Seq<char>)>, n: nat)
    requires
        n <= all.len(),
    ensures
        distinct_hosts(all, n).len() == all.take(n as int).map_values(
            |e: (Seq<char>, Seq<char>)| e.1,
        ).to_set().len(),
        forall|i: int|
            0 <= i < distinct_hosts(all, n).len() ==> exists|k: int|
                0 <= k < n && (#[trigger] all[k]).0 == #[trigger] distinct_hosts(all, n)[i]
                    && !host_seen(all, k),
    decreases n,
{
    let normal = |e: (Seq<char>, Seq<char>)| e.1;
    let some = all.take(n as int).map_values(normal);
    if n == 0 {
        assert(some.to_set() =~= Set::<Seq<char>>::empty());
    } else {
        hosts_are_listed_once(all, (n - 1) as nat);
        let fewer = all.take(n - 1).map_values(normal);
        let x = all[n - 1].1;
        assert(some =~= fewer.push(x));
        fewer.lemma_push_to_set_commute(x);
        vstd::seq_lib::seq_to_set_is_finite(fewer);
        assert(host_seen(all, n - 1) <==> fewer.to_set().contains(x)) by {
            if host_seen(all, n - 1) {
                let k = choose|k: int| 0 <= k < n - 1 && (#[trigger] all[k]).1 == all[n - 1].1;
                assert(fewer[k] == x);
            }
            if fewer.to_set().contains(x) {
                let k = choose|k: int| 0 <= k < fewer.len() && fewer[k] == x;
                assert(all[k].1 == x);
            }
        }
        if host_seen(all, n - 1) {
            assert(fewer.to_set().insert(x) =~= fewer.to_set());
        }
        let d = distinct_hosts(all, n);
        let e = distinct_hosts(all, (n - 1) as nat);
        assert forall|i: int| 0 <= i < d.len() implies exists|k: int|
            0 <= k < n && (#[trigger] all[k]).0 == #[trigger] d[i] && !host_seen(all, k) by {
            if i < e.len() {
                assert(d[i] == e[i]);
                let k = choose|k: int|
                    0 <= k < n - 1 && (#[trigger] all[k]).0 == e[i] && !host_seen(all, k);
                assert(all[k].0 == d[i]);
            } else {
                assert(all[n - 1].0 == d[i]);
            }
        }
    }
}

/// Every entry with a good name has its root, in order: a local source is the
/// directory that it names, and one that is fetched stands under the configuration
/// by its name. Every other entry is skipped, with a warning that names it.
pub proof fn every_named_source_has_its_root(
    entries: Seq<(Seq<char>, Seq<char>)>,
    config_dir: Seq<char>,
    sub: Seq<char>,
    home: Option<Seq<char>>,
    head: Seq<char>,
    kind: Seq<char>,
    n: nat,
)
    requires
        n <= entries.len(),
    ensures
        ({
            let good = entries.take(n as int).filter(|e: (Seq<char>, Seq<char>)| is_valid_name(e.0));
            let bad = entries.take(n as int).filter(|e: (Seq<char>, Seq<char>)| !is_valid_name(e.0));
            let roots = roots_upto(entries, config_dir, sub, home, n);
            let warnings = root_warnings(entries, head, kind, n);
            &&& roots.len() == good.len()
            &&& forall|i: int|
                0 <= i < roots.len() ==> (#[trigger] roots[i]).0 == good[i].0 && roots[i].1 == (
                if names_git(good[i].1) {
                    joined_path(joined_path(config_dir, sub), good[i].0)
                } else {
                    home_expanded(good[i].1, home)
                })
            &&& warnings.len() == bad.len()
            &&& forall|i: int|
                0 <= i < warnings.len() ==> (head + bad[i].0).is_prefix_of(#[trigger] warnings[i])
        }),
    decreases n,
{
    reveal(Seq::filter);
    if n > 0 {
        every_named_source_has_its_root(
            entries,
            config_dir,
            sub,
            home,
            head,
            kind,
            (n - 1) as nat,
        );
        assert(entries.take(n as int).drop_last() =~= entries.take(n - 1));
        let e = entries[n - 1];
        assert(entries.take(n as int).last() == e);
        let w = root_warnings(entries, head, kind, n);
        if !is_valid_name(e.0) {
            let l = w.last();
            assert(l.take((head + e.0).len() as int) =~= head + e.0);
        }
    }
}

/// A source is fetched where it starts like an address of the web, of git or of a
/// remote shell, or ends in `.git`; any other is a directory.
pub proof fn addresses_are_fetched(source: Seq<char>)
    ensures
        names_git(source) <==> "http://"@.is_prefix_of(source) || "https://"@.is_prefix_of(source)
            || "git@"@.is_prefix_of(source) || "ssh://"@.is_prefix_of(source)
            || ".git"@.is_suffix_of(source),
{
    prefixes_agree(source, "http://"@);
    prefixes_agree(source, "https://"@);
    prefixes_agree(source, "git@"@);
    prefixes_agree(source, "ssh://"@);
    let s = ".git"@;
    if has_suffix(source, s) {
        assert(s =~= source.skip(source.len() - s.len()));
    }
}

proof fn prefixes_agree(s: Seq<char>, p: Seq<char>)
    ensures
        has_prefix(s, p) == p.is_prefix_of(s),
{
    if has_prefix(s, p) {
        assert(p =~= s.take(p.len() as int));
    }
}

/// A limit is what is set, or the default, and never less than one.
pub proof fn limits_are_at_least_one(o: Option<usize>, default: usize)
    ensures
        at_least_one(o, default) >= 1,
        o matches Some(n) ==> at_least_one(o, default) == (if n == 0 {
            1
        } else {
            n
        }),
        o is None && default >= 1 ==> at_least_one(o, default) == default,
{
}

/// Agents are kept apart in work trees only where that word is set.
pub proof fn only_worktree_isolates(word: Seq<char>)
    ensures
        isolation_of(word) == Isolation::Worktree <==> word == "worktree"@,
{
}

/// The history is kept where the file says, else under the data directory by its
/// own name.
pub proof fn history_is_where_it_is_set(
    cfg: HistoryCfg,
    data_dir: Seq<char>,
    home: Option<Seq<char>>,
)
    ensures
        opt_text(cfg.path) matches Some(p) ==> history_path(cfg, data_dir, home) == home_expanded(
            p,
            home,
        ),
        opt_text(cfg.path) is None ==> history_path(cfg, data_dir, home) == joined_path(
            data_dir,
            "history.jsonl"@,
        ),
{
}

proof fn marked_filters(picks: Seq<(Seq<char>, Seq<char>)>, text: Seq<char>, n: nat)
    requires
        n <= picks.len(),
    ensures
        marked(picks, present_marks(text, picks), n) == picks.take(n as int).filter(
            |p: (Seq<char>, Seq<char>)| toml_holds(text, p.0),
        ),
    decreases n,
{
    reveal(Seq::filter);
    if n > 0 {
        marked_filters(picks, text, (n - 1) as nat);
        assert(picks.take(n as int).drop_last() =~= picks.take(n - 1));
        assert(picks.take(n as int).last() == picks[n - 1]);
    }
}

/// The parts of a section are those that the document has, in order; a document
/// without any of them has no section, nor has none at all.
pub proof fn sections_are_what_the_document_has(text: Seq<char>, picks: Seq<(Seq<char>, Seq<char>)>)
    ensures
        present(text, picks) == picks.filter(|p: (Seq<char>, Seq<char>)| toml_holds(text, p.0)),
        section_of(None, picks) is None,
        (forall|i: int| 0 <= i < picks.len() ==> !toml_holds(text, (#[trigger] picks[i]).0))
            ==> section_of(Some(text), picks) is None,
{
    marked_filters(picks, text, picks.len());
    assert(picks.take(picks.len() as int) =~= picks);
    let has = |p: (Seq<char>, Seq<char>)| toml_holds(text, p.0);
    if forall|i: int| 0 <= i < picks.len() ==> !toml_holds(text, (#[trigger] picks[i]).0) {
        let f = picks.filter(has);
        if f.len() > 0 {
            picks.lemma_filter_contains_rev(has, f[0]);
            picks.lemma_filter_pred(has, 0);
        }
    }
}

/// Warnings name what they are about: the word that is no mode, the model that is not
/// known with the window that is used instead, and the fault of the file.
pub proof fn warnings_name_what_they_are_about(word: Seq<char>, window: nat)
    ensures
        crate::text::occurs(mode_warning(word), word),
        crate::text::occurs(window_warning(word, window), word),
        crate::text::occurs(window_warning(word, window), decimal_of(window)),
        word.is_suffix_of(ignored_warning(word)),
{
    let a = mode_warning(word);
    let k = "[permissions].mode = \""@.len() as int;
    assert(a.subrange(k, k + word.len()) =~= word);
    assert(crate::text::occurs_at(a, word, k));
    let b = window_warning(word, window);
    let m = "hotl: `"@.len() as int;
    assert(b.subrange(m, m + word.len()) =~= word);
    assert(crate::text::occurs_at(b, word, m));
    let n = ("hotl: `"@ + word + "` is not in the model catalog — assuming a "@).len() as int;
    assert(b.subrange(n, n + decimal_of(window).len()) =~= decimal_of(window));
    assert(crate::text::occurs_at(b, decimal_of(window), n));
    let c = ignored_warning(word);
    assert(c.skip(c.len() - word.len()) =~= word);
}

/// The contents of a section are lifted where the document has it and they can be
/// written anew; else there are none.
pub proof fn contents_are_lifted_where_they_are(text: Seq<char>, key: Seq<char>)
    ensures
        inner_of(None, key) is None,
        toml_holds(text, key) && writable(text, key) ==> inner_of(Some(text), key) == toml_inner(
            text,
            key,
        ),
        !toml_holds(text, key) || !writable(text, key) ==> inner_of(Some(text), key) is None,
{
}

/// The owner's hosts are the entries of the file, each with its normal spelling.
pub proof fn own_hosts_are_the_entries(cfg: NetworkCfg, normals: Seq<String>, i: int)
    requires
        0 <= i < cfg.allow@.len(),
    ensures
        own_hosts(cfg, normals).len() == cfg.allow@.len(),
        own_hosts(cfg, normals)[i] == (cfg.allow@[i]@, normals[i]@),
{
}

} // verus!
